//! PWM fan controllers exposed by hwmon drivers in sysfs.

use vstd::prelude::*;

use crate::groupie::{key_lt, KeyView};
use crate::pattern::{regex_error, regex_is_match, Pattern};
use crate::text::{compare_text, concat_str, format_radix, parse_unsigned, parse_unsigned_spec, radix_text, trim_chars, trimmed, TextOrder};

verus! {

/// Where hwmon devices appear.
pub const HWMON_PATH: &'static str = "/sys/class/hwmon";
/// The names of hwmon device directories.
pub const HWMON_PATTERN: &'static str = "^hwmon[0-9]+$";
/// The names of PWM control files within an hwmon device directory.
pub const PWM_PATTERN: &'static str = "^pwm[1-9][0-9]*$";
/// `enable` values from this one on mean that the driver controls the fan automatically.
pub const PWM_IS_AUTO_THRESHOLD: u8 = 2;

/// What was read of one hwmon device directory: its name, its path and the names of its files.
pub struct HwmonDirectory {
    pub name: String,
    pub path: String,
    pub files: Vec<String>,
}

/// A PWM control file: `<directory>/<name>`.
#[derive(Debug)]
pub struct Pwm {
    directory: String,
    name: String,
}

/// The order in which scanned PWMs are listed: by directory path, then by name
/// (for directories in the same parent, this is the order of their paths).
pub open spec fn pwm_key(p: Pwm) -> KeyView {
    (p.directory_path(), p.file_name())
}

/// The (directory path, file name) pairs of `s`, in order.
pub open spec fn pwm_keys(s: Seq<Pwm>) -> Seq<KeyView> {
    s.map_values(|p: Pwm| pwm_key(p))
}

/// No PWM of `s` comes before an earlier one.
pub open spec fn pwms_sorted(s: Seq<Pwm>) -> bool {
    forall|i: int, j: int| 0 <= i < j < s.len() ==> !key_lt(#[trigger] pwm_key(s[j]), #[trigger] pwm_key(s[i]))
}

/// Each PWM of `s` comes strictly before every later one.
pub open spec fn pwms_strictly_sorted(s: Seq<Pwm>) -> bool {
    forall|i: int, j: int| 0 <= i < j < s.len() ==> key_lt(#[trigger] pwm_key(s[i]), #[trigger] pwm_key(s[j]))
}

/// A sorted sequence whose keys are, as a multiset, those of a sequence without duplicates
/// is strictly sorted.
proof fn lemma_sorted_distinct_strict(s: Seq<Pwm>, expected: Seq<KeyView>)
    requires
        pwms_sorted(s),
        pwm_keys(s).to_multiset() == expected.to_multiset(),
        expected.no_duplicates(),
    ensures
        pwms_strictly_sorted(s),
{
    expected.lemma_multiset_has_no_duplicates();
    pwm_keys(s).lemma_multiset_has_no_duplicates_conv();
    assert forall|i: int, j: int| 0 <= i < j < s.len() implies key_lt(#[trigger] pwm_key(s[i]), #[trigger] pwm_key(s[j])) by {
        assert(pwm_keys(s)[i] == pwm_key(s[i]));
        assert(pwm_keys(s)[j] == pwm_key(s[j]));
        crate::groupie::key_order_total(pwm_key(s[i]), pwm_key(s[j]));
    }
}

/// The PWM files that a scan finds in `dirs`: every file whose name matches `pwm_pattern` in
/// every directory whose name matches `hwmon_pattern`, in listing order.
pub open spec fn scanned_pwms(dirs: Seq<HwmonDirectory>, hwmon_pattern: Seq<char>, pwm_pattern: Seq<char>) -> Seq<KeyView>
    decreases dirs.len(),
{
    if dirs.len() == 0 {
        Seq::empty()
    } else {
        let d = dirs.last();
        let before = scanned_pwms(dirs.drop_last(), hwmon_pattern, pwm_pattern);
        if regex_is_match(hwmon_pattern, d.name@) {
            before + pwms_in(d.path@, d.files@, pwm_pattern)
        } else {
            before
        }
    }
}

/// The PWMs among `files` of the directory at `path`.
pub open spec fn pwms_in(path: Seq<char>, files: Seq<String>, pwm_pattern: Seq<char>) -> Seq<KeyView>
    decreases files.len(),
{
    if files.len() == 0 {
        Seq::empty()
    } else {
        let before = pwms_in(path, files.drop_last(), pwm_pattern);
        if regex_is_match(pwm_pattern, files.last()@) {
            before.push((path, files.last()@))
        } else {
            before
        }
    }
}

/// Inserts `p` into the sorted `v`, after every element that does not come after it.
fn insert_sorted(v: &mut Vec<Pwm>, p: Pwm)
    requires
        pwms_sorted(old(v)@),
    ensures
        pwms_sorted(final(v)@),
        exists|pos: int| 0 <= pos <= old(v)@.len() && final(v)@ == old(v)@.insert(pos, p),
{
    let n = v.len();
    let mut pos: usize = 0;
    while pos < n
        invariant
            n == v@.len(),
            pos <= n,
            pwms_sorted(v@),
            forall|i: int| 0 <= i < pos ==> !key_lt(pwm_key(p), #[trigger] pwm_key(v@[i])),
        ensures
            pos <= n,
            forall|i: int| 0 <= i < pos ==> !key_lt(pwm_key(p), #[trigger] pwm_key(v@[i])),
            pos < n ==> key_lt(pwm_key(p), pwm_key(v@[pos as int])),
        decreases n - pos,
    {
        let ord = compare_text(p.directory.as_str(), v[pos].directory.as_str());
        let before = match ord {
            TextOrder::Less => true,
            TextOrder::Greater => false,
            TextOrder::Equal => match compare_text(p.name.as_str(), v[pos].name.as_str()) {
                TextOrder::Less => true,
                _ => false,
            },
        };
        proof {
            crate::text::lemma_text_lt_trichotomy(p.directory@, v@[pos as int].directory@);
            crate::text::lemma_text_lt_trichotomy(p.name@, v@[pos as int].name@);
        }
        if before {
            break;
        }
        pos = pos + 1;
    }
    proof {
        // every element from `pos` on comes after `p`
        assert forall|j: int| pos <= j < n implies key_lt(pwm_key(p), #[trigger] pwm_key(v@[j])) by {
            if pos < n {
                if j > pos {
                    crate::groupie::key_order_total(pwm_key(v@[pos as int]), pwm_key(v@[j]));
                    if key_lt(pwm_key(v@[pos as int]), pwm_key(v@[j])) {
                        crate::groupie::key_order_transitive(pwm_key(p), pwm_key(v@[pos as int]), pwm_key(v@[j]));
                    } else {
                        assert(pwm_key(v@[pos as int]) == pwm_key(v@[j]));
                    }
                }
            }
        }
    }
    let ghost old_v = v@;
    v.insert(pos, p);
    proof {
        assert(v@ == old_v.insert(pos as int, p));
        assert forall|i: int, j: int| 0 <= i < j < v@.len() implies !key_lt(#[trigger] pwm_key(v@[j]), #[trigger] pwm_key(v@[i])) by {
            if j < pos {
                assert(v@[i] == old_v[i] && v@[j] == old_v[j]);
            } else if j == pos {
                assert(v@[i] == old_v[i]);
            } else if i < pos {
                assert(v@[i] == old_v[i] && v@[j] == old_v[j - 1]);
                crate::groupie::key_order_total(pwm_key(p), pwm_key(old_v[j - 1]));
                if key_lt(pwm_key(old_v[j - 1]), pwm_key(old_v[i])) {
                    crate::groupie::key_order_transitive(pwm_key(p), pwm_key(old_v[j - 1]), pwm_key(old_v[i]));
                }
            } else if i == pos {
                assert(v@[j] == old_v[j - 1]);
                crate::groupie::key_order_total(pwm_key(p), pwm_key(old_v[j - 1]));
            } else {
                assert(v@[i] == old_v[i - 1] && v@[j] == old_v[j - 1]);
            }
        }
    }
}

impl Pwm {
    /// The path of the directory holding this PWM's files.
    pub closed spec fn directory_path(&self) -> Seq<char> {
        self.directory@
    }

    /// The name of this PWM's control file.
    pub closed spec fn file_name(&self) -> Seq<char> {
        self.name@
    }

    /// A PWM control file `name` in the directory at `directory`.
    pub fn new(directory: String, name: String) -> (r: Pwm)
        ensures
            r.directory_path() == directory@,
            r.file_name() == name@,
    {
        Pwm { directory, name }
    }

    /// Whether an hwmon directory entry called `name` is a device directory to look into.
    pub fn is_monitor_dir(name: &str, hwmon_pattern: &Pattern) -> (r: bool)
        ensures
            r == regex_is_match(hwmon_pattern.source(), name@),
    {
        hwmon_pattern.is_match(name)
    }

    /// Finds the PWM control files in the hwmon device directories that were read:
    /// every file whose name matches `pwm_pattern`, in every directory whose name matches
    /// `hwmon_pattern`; sorted by directory, then by name.
    pub fn scan(dirs: Vec<HwmonDirectory>, hwmon_pattern: &Pattern, pwm_pattern: &Pattern) -> (r: Vec<Pwm>)
        ensures
            pwms_sorted(r@),
            pwm_keys(r@).to_multiset() == scanned_pwms(dirs@, hwmon_pattern.source(), pwm_pattern.source()).to_multiset(),
            scanned_pwms(dirs@, hwmon_pattern.source(), pwm_pattern.source()).no_duplicates() ==> pwms_strictly_sorted(r@),
    {
        let mut pwms: Vec<Pwm> = Vec::new();
        let ghost all = dirs@;
        proof {
            assert(all.take(0) =~= Seq::<HwmonDirectory>::empty());
            assert(pwm_keys(pwms@) =~= Seq::<KeyView>::empty());
        }
        for dir in it: dirs.into_iter()
            invariant
                it.seq() == all,
                pwms_sorted(pwms@),
                pwm_keys(pwms@).to_multiset() == scanned_pwms(all.take(it.index() as int), hwmon_pattern.source(), pwm_pattern.source()).to_multiset(),
        {
            let ghost k = it.index() as int;
            proof {
                assert(all.take(k + 1).drop_last() == all.take(k));
                assert(all.take(k + 1).last() == dir);
            }
            let ghost before = scanned_pwms(all.take(k), hwmon_pattern.source(), pwm_pattern.source());
            if hwmon_pattern.is_match(dir.name.as_str()) {
                let ghost files = dir.files@;
                let path = dir.path;
                let mut j: usize = 0;
                let files_vec = dir.files;
                let m = files_vec.len();
                while j < m
                    invariant
                        m == files_vec@.len(),
                        files_vec@ == files,
                        j <= m,
                        pwms_sorted(pwms@),
                        pwm_keys(pwms@).to_multiset() == (before + pwms_in(path@, files.take(j as int), pwm_pattern.source())).to_multiset(),
                    decreases m - j,
                {
                    proof {
                        assert(files.take(j + 1).drop_last() == files.take(j as int));
                        assert(files.take(j + 1).last() == files[j as int]);
                    }
                    if pwm_pattern.is_match(files_vec[j].as_str()) {
                        let p = Pwm { directory: path.clone(), name: files_vec[j].clone() };
                        let ghost before_p = pwms@;
                        let ghost kp = pwm_key(p);
                        assert(kp == (path@, files[j as int]@));
                        insert_sorted(&mut pwms, p);
                        proof {
                            let prev = before + pwms_in(path@, files.take(j as int), pwm_pattern.source());
                            let pos = choose|pos: int| 0 <= pos <= before_p.len() && pwms@ == before_p.insert(pos, p);
                            assert(pwm_keys(pwms@) =~= pwm_keys(before_p).insert(pos, kp));
                            vstd::seq_lib::to_multiset_insert(pwm_keys(before_p), pos, kp);
                            assert(before + pwms_in(path@, files.take(j + 1), pwm_pattern.source()) == prev.push(kp));
                            vstd::seq_lib::to_multiset_insert(prev, prev.len() as int, kp);
                            assert(prev.insert(prev.len() as int, kp) =~= prev.push(kp));
                        }
                    }
                    j = j + 1;
                }
                proof {
                    assert(files.take(m as int) == files);
                }
            }
        }
        proof {
            assert(all.take(all.len() as int) == all);
            if scanned_pwms(dirs@, hwmon_pattern.source(), pwm_pattern.source()).no_duplicates() {
                lemma_sorted_distinct_strict(pwms@, scanned_pwms(dirs@, hwmon_pattern.source(), pwm_pattern.source()));
            }
        }
        pwms
    }

    /// Finds the PWM control files in the hwmon device directories that were read, with the
    /// names of device directories matching [`HWMON_PATTERN`] and those of control files
    /// matching [`PWM_PATTERN`] (see [`Self::scan`]); the error of compiling a pattern if one
    /// does not compile.
    pub fn scan_hwmon(dirs: Vec<HwmonDirectory>) -> (r: Result<Vec<Pwm>, String>)
        ensures
            r is Ok <==> regex_error(HWMON_PATTERN@) is None && regex_error(PWM_PATTERN@) is None,
            r matches Err(e) ==> (regex_error(HWMON_PATTERN@) == Some(e@) || regex_error(PWM_PATTERN@) == Some(e@)),
            r matches Ok(v) ==> {
                &&& pwms_sorted(v@)
                &&& pwm_keys(v@).to_multiset() == scanned_pwms(dirs@, HWMON_PATTERN@, PWM_PATTERN@).to_multiset()
                &&& scanned_pwms(dirs@, HWMON_PATTERN@, PWM_PATTERN@).no_duplicates() ==> pwms_strictly_sorted(v@)
            },
    {
        let hwmon = match Pattern::new(HWMON_PATTERN) {
            Ok(p) => p,
            Err(e) => {
                return Err(e);
            },
        };
        let pwm = match Pattern::new(PWM_PATTERN) {
            Ok(p) => p,
            Err(e) => {
                return Err(e);
            },
        };
        Ok(Pwm::scan(dirs, &hwmon, &pwm))
    }

    /// The key of this controller: the name of its control file (such as `pwm1`).
    pub fn get_key(&self) -> (r: &str)
        ensures
            r@ == self.file_name(),
    {
        self.name.as_str()
    }

    /// The path of the control file: `<directory>/<name>`.
    pub fn base_path(&self) -> (r: String)
        ensures
            r@ == self.directory_path() + seq!['/'] + self.file_name(),
    {
        let mut s = concat_str(self.directory.as_str(), "/");
        proof {
            reveal_strlit("/");
        }
        s.append(self.name.as_str());
        s
    }

    /// The path of a companion file of this PWM, such as `pwm1_enable`:
    /// `<directory>/<name>_<extension>`.
    pub fn special_file(&self, extension: &str) -> (r: String)
        ensures
            r@ == self.directory_path() + seq!['/'] + self.file_name() + seq!['_'] + extension@,
    {
        let mut s = concat_str(self.directory.as_str(), "/");
        proof {
            reveal_strlit("/");
            reveal_strlit("_");
        }
        s.append(self.name.as_str());
        s.append("_");
        s.append(extension);
        s
    }

    /// Reads the contents of the `enable` file: whether the driver controls the fan
    /// automatically (a value of at least [`PWM_IS_AUTO_THRESHOLD`]).
    /// `None` if the contents are not a number from 0 to 255 (surrounding whitespace aside).
    pub fn auto_from_enable(contents: &str) -> (r: Option<bool>)
        ensures
            match parse_unsigned_spec(trimmed(contents@), 255) {
                Some(v) => r == Some(v >= PWM_IS_AUTO_THRESHOLD),
                None => r is None,
            },
    {
        let t = trim_chars(contents);
        match parse_unsigned(t.as_slice(), 255) {
            Some(v) => Some(v >= PWM_IS_AUTO_THRESHOLD as u64),
            None => None,
        }
    }

    /// What to write to the `enable` file: `5` hands the fan to the driver's automatic
    /// control, `1` to manual control by this program.
    pub fn enable_value(auto: bool) -> (r: &'static str)
        ensures
            r@ == enable_text(auto),
    {
        proof {
            reveal_strlit("5");
            reveal_strlit("1");
        }
        if auto {
            "5"
        } else {
            "1"
        }
    }

    /// The text written to the control file for a duty value.
    pub fn value_text(value: u8) -> (r: String)
        ensures
            r@ == radix_text(value as nat, 10, false),
    {
        format_radix(value as u64, 10, false)
    }
}

/// What [`Pwm::enable_value`] writes for `auto`.
pub open spec fn enable_text(auto: bool) -> Seq<char> {
    if auto {
        seq!['5']
    } else {
        seq!['1']
    }
}

/// What is written to a PWM's `enable` file reads back as the same mode: the text that
/// [`Pwm::enable_value`] gives for `auto` is read by [`Pwm::auto_from_enable`] as `auto`.
pub proof fn enable_value_reads_back(auto: bool)
    ensures
        parse_unsigned_spec(trimmed(enable_text(auto)), 255) matches Some(v) && (v >= PWM_IS_AUTO_THRESHOLD) == auto,
{
    let t = enable_text(auto);
    let c = t[0];
    assert(!crate::text::unicode_whitespace(c));
    assert(crate::text::first_non_ws(t) == 0);
    assert(t.drop_last() =~= Seq::<char>::empty());
    assert(crate::text::last_non_ws_end(t) == 1);
    assert(trimmed(t) =~= t);
    assert(crate::text::unsigned_digits(t) == t);
    assert(crate::text::digits_value(t.drop_last()) == 0);
    assert(crate::text::digits_value(t) == crate::text::digit_value(c));
}

} // verus!
