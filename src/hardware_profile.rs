//! The `key=value` listing printed by the hardware-profile subcommand.

use vstd::prelude::*;
use vstd::string::*;

verus! {

/// Characters with the Unicode `White_Space` property.
pub open spec fn is_white_space(c: char) -> bool {
    let u = c as u32;
    (0x9 <= u <= 0xd) || u == 0x20 || u == 0x85 || u == 0xa0 || u == 0x1680 || (0x2000 <= u <= 0x200a)
        || u == 0x2028 || u == 0x2029 || u == 0x202f || u == 0x205f || u == 0x3000
}

pub open spec fn trim_start(s: Seq<char>) -> Seq<char>
    decreases s.len(),
{
    if s.len() > 0 && is_white_space(s[0]) {
        trim_start(s.drop_first())
    } else {
        s
    }
}

pub open spec fn trim_end(s: Seq<char>) -> Seq<char>
    decreases s.len(),
{
    if s.len() > 0 && is_white_space(s.last()) {
        trim_end(s.drop_last())
    } else {
        s
    }
}

/// `s` without leading and trailing white space.
pub open spec fn trimmed(s: Seq<char>) -> Seq<char> {
    trim_end(trim_start(s))
}

/// Relies on `str::trim`: it removes the leading and trailing characters
/// for which `char::is_whitespace` (the `White_Space` property) holds.
#[verifier::external_body]
fn trim_text(s: &str) -> (r: String)
    ensures
        r@ == trimmed(s@),
{
    s.trim().to_string()
}

/// A line without the carriage return of a `\r\n` ending.
pub open spec fn strip_cr(line: Seq<char>) -> Seq<char> {
    if line.len() > 0 && line.last() == '\r' {
        line.drop_last()
    } else {
        line
    }
}

/// Lines of `s` after the partial line `cur`: a line ends at `\n` (a `\r`
/// before it is dropped); a last line without `\n` counts if not empty.
pub open spec fn lines_after(s: Seq<char>, cur: Seq<char>) -> Seq<Seq<char>>
    decreases s.len(),
{
    if s.len() == 0 {
        if cur.len() == 0 {
            seq![]
        } else {
            seq![cur]
        }
    } else if s[0] == '\n' {
        seq![strip_cr(cur)] + lines_after(s.drop_first(), seq![])
    } else {
        lines_after(s.drop_first(), cur.push(s[0]))
    }
}

pub open spec fn lines_of(s: Seq<char>) -> Seq<Seq<char>> {
    lines_after(s, seq![])
}

pub open spec fn is_first_equals(l: Seq<char>, k: int) -> bool {
    &&& 0 <= k < l.len()
    &&& l[k] == '='
    &&& forall|j: int| 0 <= j < k ==> l[j] != '='
}

/// The entry a line contributes: text before the first `=` and after it,
/// both trimmed, if there is a `=` and the key is not empty.
pub open spec fn line_entry(l: Seq<char>) -> Option<(Seq<char>, Seq<char>)> {
    if exists|k: int| is_first_equals(l, k) {
        let k = choose|k: int| is_first_equals(l, k);
        let key = trimmed(l.subrange(0, k));
        if key.len() > 0 {
            Some((key, trimmed(l.subrange(k + 1, l.len() as int))))
        } else {
            None
        }
    } else {
        None
    }
}

/// The value of `key` in a listing: that of the last line that gives it.
pub open spec fn listed_value(lines: Seq<Seq<char>>, key: Seq<char>) -> Option<Seq<char>>
    decreases lines.len(),
{
    if lines.len() == 0 {
        None
    } else {
        match line_entry(lines.last()) {
            Some(e) => if e.0 == key {
                Some(e.1)
            } else {
                listed_value(lines.drop_last(), key)
            },
            None => listed_value(lines.drop_last(), key),
        }
    }
}

/// Hardware facts by name; each name at most once.
pub struct HardwareProfile {
    pub keys: Vec<String>,
    pub values: Vec<String>,
}

impl HardwareProfile {
    pub open spec fn wf(&self) -> bool {
        &&& self.keys.len() == self.values.len()
        &&& forall|i: int, j: int|
            0 <= i < self.keys.len() && 0 <= j < self.keys.len() && i != j ==> self.keys@[i]@ != self.keys@[j]@
    }

    pub open spec fn has(&self, key: Seq<char>) -> bool {
        exists|i: int| 0 <= i < self.keys.len() && self.keys@[i]@ == key
    }

    pub open spec fn lookup(&self, key: Seq<char>) -> Option<Seq<char>> {
        if self.has(key) {
            let i = choose|i: int| 0 <= i < self.keys.len() && self.keys@[i]@ == key;
            Some(self.values@[i]@)
        } else {
            None
        }
    }

    pub fn new() -> (r: Self)
        ensures
            r.wf(),
            forall|k: Seq<char>| r.lookup(k) == None::<Seq<char>>,
    {
        HardwareProfile { keys: Vec::new(), values: Vec::new() }
    }

    pub fn len(&self) -> (r: usize)
        ensures
            r == self.keys.len(),
    {
        self.keys.len()
    }

    proof fn lemma_lookup_at(&self, i: int)
        requires
            self.wf(),
            0 <= i < self.keys.len(),
        ensures
            self.lookup(self.keys@[i]@) == Some(self.values@[i]@),
    {
        assert(self.has(self.keys@[i]@));
    }

    fn find(&self, key: &str) -> (r: Option<usize>)
        requires
            self.wf(),
        ensures
            match r {
                Some(i) => i < self.keys.len() && self.keys@[i as int]@ == key@ && self.lookup(key@) == Some(
                    self.values@[i as int]@,
                ),
                None => !self.has(key@) && self.lookup(key@) == None::<Seq<char>>,
            },
    {
        let mut i: usize = 0;
        while i < self.keys.len()
            invariant
                self.wf(),
                i <= self.keys.len(),
                forall|j: int| 0 <= j < i ==> self.keys@[j]@ != key@,
            decreases self.keys.len() - i,
        {
            if crate::text::same_text(self.keys[i].as_str(), key) {
                proof {
                    self.lemma_lookup_at(i as int);
                }
                return Some(i);
            }
            i += 1;
        }
        None
    }

    /// The value listed for `key`, if any.
    pub fn get(&self, key: &str) -> (r: Option<&String>)
        requires
            self.wf(),
        ensures
            match r {
                Some(v) => self.lookup(key@) == Some(v@),
                None => self.lookup(key@) == None::<Seq<char>>,
            },
    {
        match self.find(key) {
            Some(i) => Some(&self.values[i]),
            None => None,
        }
    }

    /// Sets the value of `key`, replacing an earlier one.
    pub fn set(&mut self, key: String, value: String)
        requires
            old(self).wf(),
        ensures
            final(self).wf(),
            final(self).lookup(key@) == Some(value@),
            forall|k: Seq<char>| k != key@ ==> final(self).lookup(k) == old(self).lookup(k),
    {
        match self.find(key.as_str()) {
            Some(i) => {
                let ghost pre = *self;
                self.values.set(i, value);
                proof {
                    assert forall|c: Seq<char>| c != key@ implies self.lookup(c) == pre.lookup(c) by {
                        if pre.has(c) {
                            let k = choose|k: int| 0 <= k < pre.keys.len() && pre.keys@[k]@ == c;
                            self.lemma_lookup_at(k);
                            pre.lemma_lookup_at(k);
                        }
                        if self.has(c) {
                            let k = choose|k: int| 0 <= k < self.keys.len() && self.keys@[k]@ == c;
                            assert(pre.keys@[k]@ == c);
                        }
                    }
                    self.lemma_lookup_at(i as int);
                }
            },
            None => {
                let ghost pre = *self;
                let ghost kv = key@;
                self.keys.push(key);
                self.values.push(value);
                proof {
                    let n = pre.keys.len() as int;
                    assert(self.keys@[n]@ == kv);
                    self.lemma_lookup_at(n);
                    assert forall|c: Seq<char>| c != kv implies self.lookup(c) == pre.lookup(c) by {
                        if pre.has(c) {
                            let k = choose|k: int| 0 <= k < pre.keys.len() && pre.keys@[k]@ == c;
                            assert(self.keys@[k] == pre.keys@[k]);
                            self.lemma_lookup_at(k);
                            pre.lemma_lookup_at(k);
                        }
                        if self.has(c) {
                            let k = choose|k: int| 0 <= k < self.keys.len() && self.keys@[k]@ == c;
                            assert(k != n);
                            assert(pre.keys@[k]@ == c);
                        }
                    }
                }
            },
        }
    }
}

proof fn lemma_first_equals_unique(l: Seq<char>, k: int)
    requires
        is_first_equals(l, k),
    ensures
        (choose|m: int| is_first_equals(l, m)) == k,
{
    let m = choose|m: int| is_first_equals(l, m);
    assert(is_first_equals(l, m));
    if m < k {
        assert(l[m] != '=');
    }
    if k < m {
        assert(l[k] != '=');
    }
}

/// The entry of one line, as `line_entry` describes it.
fn parse_profile_line(line: &str) -> (r: Option<(String, String)>)
    ensures
        match r {
            Some(e) => line_entry(line@) == Some((e.0@, e.1@)),
            None => line_entry(line@) == None::<(Seq<char>, Seq<char>)>,
        },
{
    let n = line.unicode_len();
    let mut k: usize = 0;
    while k < n
        invariant
            n == line@.len(),
            k <= n,
            forall|j: int| 0 <= j < k ==> line@[j] != '=',
        decreases n - k,
    {
        if line.get_char(k) == '=' {
            proof {
                lemma_first_equals_unique(line@, k as int);
            }
            let key = trim_text(line.substring_char(0, k));
            let value = trim_text(line.substring_char(k + 1, n));
            if key.as_str().unicode_len() == 0 {
                return None;
            }
            return Some((key, value));
        }
        k += 1;
    }
    proof {
        if exists|m: int| is_first_equals(line@, m) {
            let m = choose|m: int| is_first_equals(line@, m);
            assert(line@[m] != '=');
        }
    }
    None
}

fn strip_carriage_return(line: &str) -> (r: &str)
    ensures
        r@ == strip_cr(line@),
{
    let n = line.unicode_len();
    if n > 0 && line.get_char(n - 1) == '\r' {
        line.substring_char(0, n - 1)
    } else {
        line
    }
}

fn add_profile_line(profile: &mut HardwareProfile, line: &str, Ghost(lines): Ghost<Seq<Seq<char>>>)
    requires
        old(profile).wf(),
        forall|k: Seq<char>| old(profile).lookup(k) == listed_value(lines, k),
    ensures
        final(profile).wf(),
        forall|k: Seq<char>| final(profile).lookup(k) == listed_value(lines.push(line@), k),
{
    let ghost all = lines.push(line@);
    proof {
        assert(all.drop_last() =~= lines);
        assert(all.last() == line@);
    }
    match parse_profile_line(line) {
        Some((key, value)) => {
            let ghost kv = key@;
            let ghost vv = value@;
            profile.set(key, value);
            proof {
                assert(line_entry(all.last()) == Some((kv, vv)));
                assert forall|k: Seq<char>| profile.lookup(k) == listed_value(all, k) by {
                    if k != kv {
                        assert(listed_value(all, k) == listed_value(lines, k));
                    }
                }
            }
        },
        None => {
            proof {
                assert forall|k: Seq<char>| profile.lookup(k) == listed_value(all, k) by {
                    assert(listed_value(all, k) == listed_value(lines, k));
                }
            }
        },
    }
}

/// Reads `key=value` lines; a line without `=` or with an empty key is
/// skipped, and a key given twice keeps its last value.
pub fn parse_hardware_profile_output(stdout: &str) -> (r: HardwareProfile)
    ensures
        r.wf(),
        forall|k: Seq<char>| r.lookup(k) == listed_value(lines_of(stdout@), k),
{
    let n = stdout.unicode_len();
    let mut profile = HardwareProfile::new();
    let mut line_start: usize = 0;
    let mut i: usize = 0;
    let ghost mut done: Seq<Seq<char>> = seq![];
    assert(stdout@.subrange(0, n as int) =~= stdout@);
    assert(stdout@.subrange(0, 0) =~= Seq::<char>::empty());
    assert(done + lines_of(stdout@) =~= lines_of(stdout@));
    while i < n
        invariant
            n == stdout@.len(),
            line_start <= i <= n,
            profile.wf(),
            forall|k: Seq<char>| profile.lookup(k) == listed_value(done, k),
            lines_of(stdout@) == done + lines_after(
                stdout@.subrange(i as int, n as int),
                stdout@.subrange(line_start as int, i as int),
            ),
        decreases n - i,
    {
        let c = stdout.get_char(i);
        let ghost rest = stdout@.subrange(i as int, n as int);
        let ghost cur = stdout@.subrange(line_start as int, i as int);
        assert(rest.drop_first() =~= stdout@.subrange(i + 1, n as int));
        assert(rest[0] == c);
        if c == '\n' {
            let line = strip_carriage_return(stdout.substring_char(line_start, i));
            add_profile_line(&mut profile, line, Ghost(done));
            proof {
                assert(done + (seq![strip_cr(cur)] + lines_after(rest.drop_first(), seq![])) =~= done.push(
                    strip_cr(cur),
                ) + lines_after(rest.drop_first(), seq![]));
                done = done.push(strip_cr(cur));
                assert(stdout@.subrange(i + 1, i + 1) =~= Seq::<char>::empty());
            }
            line_start = i + 1;
        } else {
            assert(stdout@.subrange(line_start as int, i + 1) =~= cur.push(c));
        }
        i += 1;
    }
    if line_start < n {
        let line = stdout.substring_char(line_start, n);
        add_profile_line(&mut profile, line, Ghost(done));
        proof {
            assert(done + seq![line@] =~= done.push(line@));
        }
    } else {
        proof {
            assert(done + Seq::<Seq<char>>::empty() =~= done);
        }
    }
    profile
}

} // verus!
