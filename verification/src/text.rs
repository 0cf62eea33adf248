//! Small verified helpers on paths-as-text: joining with `/`, prefix tests,
//! and byte-sequence equality used for content hashes.

use vstd::prelude::*;
use vstd::string::StrSliceExecFns;
use vstd::string::StringExecFns;

verus! {

/// The repository-relative path of a directory entry: the entry's name when
/// the directory is the walk root, else the directory's path, `/`, and the
/// name.
pub open spec fn spec_join_rel(dir: Seq<char>, name: Seq<char>) -> Seq<char> {
    if dir.len() == 0 {
        name
    } else {
        dir + seq!['/'] + name
    }
}

/// Join a directory path and an entry name with `/`; an empty directory path
/// stands for the walk root and joins to the bare name.
pub fn join_rel(dir: &str, name: &str) -> (r: String)
    ensures
        r@ == spec_join_rel(dir@, name@),
{
    if dir.unicode_len() == 0 {
        let r = name.to_owned();
        assert(r@ =~= spec_join_rel(dir@, name@));
        r
    } else {
        let mut r = dir.to_owned();
        r.append("/");
        r.append(name);
        proof {
            reveal_strlit("/");
            assert(r@ =~= spec_join_rel(dir@, name@));
        }
        r
    }
}

/// A pending directory resolved against the walk root: the root itself when
/// the relative path is empty, else the root, `/`, and the relative path.
pub open spec fn spec_join_under(base: Seq<char>, rel: Seq<char>) -> Seq<char> {
    if rel.len() == 0 {
        base
    } else {
        base + seq!['/'] + rel
    }
}

/// Resolve a repository-relative path against a base directory; the empty
/// relative path stands for the base itself.
pub fn join_under(base: &str, rel: &str) -> (r: String)
    ensures
        r@ == spec_join_under(base@, rel@),
{
    if rel.unicode_len() == 0 {
        let r = base.to_owned();
        assert(r@ =~= spec_join_under(base@, rel@));
        r
    } else {
        let mut r = base.to_owned();
        r.append("/");
        r.append(rel);
        proof {
            reveal_strlit("/");
            assert(r@ =~= spec_join_under(base@, rel@));
        }
        r
    }
}

/// Whether `prefix` is a prefix of `s`.
pub open spec fn spec_is_prefix(prefix: Seq<char>, s: Seq<char>) -> bool {
    prefix.len() <= s.len() && s.subrange(0, prefix.len() as int) == prefix
}

/// Whether the text `s` starts with `prefix`, character by character.
pub fn starts_with(s: &str, prefix: &str) -> (r: bool)
    ensures
        r == spec_is_prefix(prefix@, s@),
{
    let n = prefix.unicode_len();
    if n > s.unicode_len() {
        assert(!spec_is_prefix(prefix@, s@));
        return false;
    }
    let mut i: usize = 0;
    while i < n
        invariant
            n == prefix@.len(),
            n <= s@.len(),
            i <= n,
            forall|j: int| 0 <= j < i ==> s@[j] == prefix@[j],
        decreases n - i,
    {
        if s.get_char(i) != prefix.get_char(i) {
            assert(!spec_is_prefix(prefix@, s@));
            return false;
        }
        i += 1;
    }
    assert(s@.subrange(0, n as int) =~= prefix@);
    true
}

/// Whether the name begins with a `.`: such entries, including the
/// version-control metadata directory, are skipped by the untracked walk.
pub fn starts_with_dot(name: &str) -> (r: bool)
    ensures
        r == (name@.len() > 0 && name@[0] == '.'),
{
    if name.unicode_len() == 0 {
        return false;
    }
    name.get_char(0) == '.'
}

/// Append one character to a string.
///
/// Relies on String::push of std: the character is appended and nothing
/// else changes.
#[verifier::external_body]
pub(crate) fn push_char(s: &mut String, c: char)
    ensures
        final(s)@ == old(s)@.push(c),
{
    s.push(c);
}

/// Splitting text at every occurrence of a separator: one segment more
/// than there are separators, in order, separators dropped. Defined from
/// the right: a trailing separator closes the last segment and opens an
/// empty one.
pub open spec fn spec_split(s: Seq<char>, sep: char) -> Seq<Seq<char>>
    decreases s.len(),
{
    if s.len() == 0 {
        seq![Seq::empty()]
    } else if s.last() == sep {
        spec_split(s.drop_last(), sep).push(Seq::empty())
    } else {
        let r = spec_split(s.drop_last(), sep);
        r.update(r.len() - 1, r.last().push(s.last()))
    }
}

/// Split text at every occurrence of a separator.
pub fn split_at_char(s: &str, sep: char) -> (r: Vec<String>)
    ensures
        r@.map_values(|p: String| p@) == spec_split(s@, sep),
{
    let mut done: Vec<String> = Vec::new();
    let mut cur: String = String::new();
    let n = s.unicode_len();
    let mut i: usize = 0;
    #[verifier::loop_isolation(false)]
    while i < n
        invariant
            i <= n,
            spec_split(s@.take(i as int), sep) == done@.map_values(|p: String| p@).push(cur@),
        decreases n - i,
    {
        let c = s.get_char(i);
        let ghost prev_done = done@;
        let ghost prev_cur = cur@;
        proof {
            assert(s@.take(i + 1).drop_last() =~= s@.take(i as int));
            assert(s@.take(i + 1).last() == s@[i as int]);
        }
        if c == sep {
            done.push(cur);
            cur = String::new();
            proof {
                assert(done@.map_values(|p: String| p@) =~= prev_done.map_values(
                    |p: String| p@,
                ).push(prev_cur));
            }
        } else {
            push_char(&mut cur, c);
            proof {
                let r = spec_split(s@.take(i as int), sep);
                assert(r.update(r.len() - 1, r.last().push(c)) =~= done@.map_values(
                    |p: String| p@,
                ).push(cur@));
            }
        }
        i += 1;
    }
    proof {
        assert(s@.take(n as int) =~= s@);
    }
    done.push(cur);
    proof {
        assert(done@.map_values(|p: String| p@) =~= spec_split(s@, sep));
    }
    done
}

/// The characters the selection parser strips from the ends of a segment:
/// the common ASCII whitespace.
pub open spec fn spec_is_space(c: char) -> bool {
    c == ' ' || c == '\t' || c == '\n' || c == '\r'
}

/// Text with leading and trailing ASCII whitespace stripped, defined by
/// stripping one end at a time.
pub open spec fn spec_trim(s: Seq<char>) -> Seq<char>
    decreases s.len(),
{
    if s.len() == 0 {
        s
    } else if spec_is_space(s[0]) {
        spec_trim(s.drop_first())
    } else if spec_is_space(s.last()) {
        spec_trim(s.drop_last())
    } else {
        s
    }
}

/// Strip leading and trailing ASCII whitespace.
pub fn trim(s: &str) -> (r: String)
    ensures
        r@ == spec_trim(s@),
{
    let n = s.unicode_len();
    let mut lo: usize = 0;
    proof {
        assert(s@.skip(0) =~= s@);
    }
    while lo < n && is_space(s.get_char(lo))
        invariant
            lo <= n,
            n == s@.len(),
            forall|j: int| 0 <= j < lo ==> spec_is_space(s@[j]),
            spec_trim(s@) == spec_trim(s@.skip(lo as int)),
        decreases n - lo,
    {
        proof {
            assert(s@.skip(lo as int).drop_first() =~= s@.skip(lo + 1));
        }
        lo += 1;
    }
    let mut hi: usize = n;
    while hi > lo && is_space(s.get_char(hi - 1))
        invariant
            lo <= hi <= n,
            n == s@.len(),
            spec_trim(s@) == spec_trim(s@.subrange(lo as int, hi as int)),
            lo < n ==> !spec_is_space(s@[lo as int]),
        decreases hi,
    {
        proof {
            let seg = s@.subrange(lo as int, hi as int);
            assert(seg.last() == s@[hi - 1]);
            assert(seg.drop_last() =~= s@.subrange(lo as int, hi - 1));
        }
        hi -= 1;
    }
    let r = s.substring_char(lo, hi);
    proof {
        let seg = s@.subrange(lo as int, hi as int);
        assert(spec_trim(seg) == seg) by {
            if seg.len() > 0 {
                assert(seg[0] == s@[lo as int]);
                assert(seg.last() == s@[hi - 1]);
            }
        }
    }
    r.to_owned()
}

/// Whether a character is ASCII whitespace.
fn is_space(c: char) -> (r: bool)
    ensures
        r == spec_is_space(c),
{
    c == ' ' || c == '\t' || c == '\n' || c == '\r'
}

/// Whether the text holds the given character.
pub fn contains_char(s: &str, c: char) -> (r: bool)
    ensures
        r == s@.contains(c),
{
    let n = s.unicode_len();
    let mut i: usize = 0;
    while i < n
        invariant
            i <= n,
            n == s@.len(),
            forall|j: int| 0 <= j < i ==> s@[j] != c,
        decreases n - i,
    {
        if s.get_char(i) == c {
            assert(s@[i as int] == c);
            return true;
        }
        i += 1;
    }
    assert(forall|j: int| 0 <= j < s@.len() ==> s@[j] != c);
    false
}

/// The numeric value of a digit string, most significant digit first.
pub open spec fn spec_digits_val(s: Seq<char>) -> int
    decreases s.len(),
{
    if s.len() == 0 {
        0
    } else {
        spec_digits_val(s.drop_last()) * 10 + (s.last() as int - '0' as int)
    }
}

/// Whether every character is a decimal digit.
pub open spec fn spec_all_digits(s: Seq<char>) -> bool {
    forall|i: int| 0 <= i < s.len() ==> '0' <= #[trigger] s[i] <= '9'
}

/// What parsing a decimal number returns: the value of a nonempty
/// all-digit string that fits the platform's word, nothing otherwise.
pub open spec fn spec_parse_usize(s: Seq<char>) -> Option<int> {
    if s.len() > 0 && spec_all_digits(s) && spec_digits_val(s) <= usize::MAX {
        Option::Some(spec_digits_val(s))
    } else {
        Option::None
    }
}

proof fn lemma_digits_val_nonneg(s: Seq<char>)
    requires
        spec_all_digits(s),
    ensures
        spec_digits_val(s) >= 0,
    decreases s.len(),
{
    if s.len() > 0 {
        assert(spec_all_digits(s.drop_last()));
        lemma_digits_val_nonneg(s.drop_last());
    }
}

proof fn lemma_digits_val_extend_ge(s: Seq<char>, i: int)
    requires
        spec_all_digits(s),
        0 <= i <= s.len(),
    ensures
        spec_digits_val(s) >= spec_digits_val(s.take(i)),
    decreases s.len() - i,
{
    if i < s.len() {
        lemma_digits_val_extend_ge(s, i + 1);
        assert(s.take(i + 1).drop_last() =~= s.take(i));
        assert(s.take(i + 1).last() == s[i]);
        let a = spec_digits_val(s.take(i));
        assert(spec_all_digits(s.take(i))) by {
            assert(forall|j: int| 0 <= j < i ==> s.take(i)[j] == s[j]);
        }
        lemma_digits_val_nonneg(s.take(i));
        assert(spec_digits_val(s.take(i + 1)) == a * 10 + (s[i] as int - '0' as int));
        assert(a * 10 >= a) by (nonlinear_arith)
            requires
                a >= 0,
        ;
    } else {
        assert(s.take(i) =~= s);
    }
}

/// Parse a decimal number, as the selection parser does: the value of a
/// nonempty all-digit string, unless it exceeds the platform's word.
pub fn parse_usize(s: &str) -> (r: Option<usize>)
    ensures
        match r {
            Option::Some(v) => spec_parse_usize(s@) == Option::Some(v as int),
            Option::None => spec_parse_usize(s@) is None,
        },
{
    let n = s.unicode_len();
    if n == 0 {
        return Option::None;
    }
    let mut val: usize = 0;
    let mut i: usize = 0;
    #[verifier::loop_isolation(false)]
    while i < n
        invariant
            i <= n,
            val == spec_digits_val(s@.take(i as int)),
            spec_all_digits(s@.take(i as int)),
        decreases n - i,
    {
        let c = s.get_char(i);
        if c < '0' || c > '9' {
            assert(!spec_all_digits(s@)) by {
                assert(s@[i as int] == c);
            }
            return Option::None;
        }
        let d: usize = (c as u32 as usize) - ('0' as u32 as usize);
        proof {
            assert(s@.take(i + 1).drop_last() =~= s@.take(i as int));
            assert(s@.take(i + 1).last() == s@[i as int]);
            assert(forall|j: int| 0 <= j < i + 1 ==> '0' <= #[trigger] s@.take(i + 1)[j] <= '9');
        }
        let next = match val.checked_mul(10) {
            Option::Some(m) => m.checked_add(d),
            Option::None => Option::None,
        };
        match next {
            Option::Some(v) => {
                val = v;
            },
            Option::None => {
                proof {
                    lemma_digits_val_nonneg(s@.take(i + 1));
                    if spec_all_digits(s@) {
                        lemma_digits_val_extend_ge(s@, i + 1);
                    }
                }
                return Option::None;
            },
        }
        i += 1;
    }
    proof {
        assert(s@.take(n as int) =~= s@);
    }
    Option::Some(val)
}

/// Whether two byte vectors hold the same bytes; content hashes are compared
/// this way.
pub fn bytes_eq(a: &Vec<u8>, b: &Vec<u8>) -> (r: bool)
    ensures
        r == (a@ == b@),
{
    if a.len() != b.len() {
        return false;
    }
    let n = a.len();
    let mut i: usize = 0;
    while i < n
        invariant
            n == a@.len(),
            n == b@.len(),
            i <= n,
            forall|j: int| 0 <= j < i ==> a@[j] == b@[j],
        decreases n - i,
    {
        if a[i] != b[i] {
            return false;
        }
        i += 1;
    }
    assert(a@ =~= b@);
    true
}

} // verus!
