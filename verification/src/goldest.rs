//! Finding the oldest changes: order a stream of statuses by modification
//! time, cut a window out of it, and render each line in the formats the
//! oldest-changes report offers.

use vstd::prelude::*;
use vstd::string::StrSliceExecFns;
use vstd::string::StringExecFns;

use crate::text::push_char;
use crate::types::FileMetadata;
use crate::types::FileStatus;
use crate::types::FileStatusV;

verus! {

/// The sort key of a status: its modification time, with a missing
/// metadata record counting as the epoch.
pub open spec fn spec_mtime_key(f: FileStatusV) -> int {
    match f.metadata {
        Option::Some(m) => m.modified_time as int,
        Option::None => 0,
    }
}

/// The modification time a status sorts under.
pub fn mtime_key(f: &FileStatus) -> (r: u64)
    ensures
        r as int == spec_mtime_key(f@),
{
    match &f.metadata {
        Option::Some(m) => m.modified_time,
        Option::None => 0,
    }
}

/// Order statuses by modification time, oldest first, keeping exactly the
/// given statuses.
pub fn sort_by_mtime(files: Vec<FileStatus>) -> (r: Vec<FileStatus>)
    ensures
        forall|i: int, j: int|
            0 <= i < j < r@.len() ==> spec_mtime_key(#[trigger] r@[i]@) <= spec_mtime_key(
                #[trigger] r@[j]@,
            ),
        r@.map_values(|f: FileStatus| f@).to_multiset() == files@.map_values(
            |f: FileStatus| f@,
        ).to_multiset(),
{
    broadcast use vstd::seq_lib::group_to_multiset_ensures;

    let ghost orig = files@.map_values(|f: FileStatus| f@);
    let mut rest = files;
    let mut out: Vec<FileStatus> = Vec::new();
    #[verifier::loop_isolation(false)]
    while rest.len() > 0
        invariant
            forall|i: int, j: int|
                0 <= i < j < out@.len() ==> spec_mtime_key(#[trigger] out@[i]@) <= spec_mtime_key(
                    #[trigger] out@[j]@,
                ),
            forall|i: int, j: int|
                0 <= i < out@.len() && 0 <= j < rest@.len() ==> spec_mtime_key(
                    #[trigger] out@[i]@,
                ) <= spec_mtime_key(#[trigger] rest@[j]@),
            out@.map_values(|f: FileStatus| f@).to_multiset().add(
                rest@.map_values(|f: FileStatus| f@).to_multiset(),
            ) == orig.to_multiset(),
        decreases rest@.len(),
    {
        let n = rest.len();
        let mut m: usize = 0;
        let mut i: usize = 1;
        while i < n
            invariant
                n == rest@.len(),
                m < i <= n,
                forall|j: int|
                    0 <= j < i ==> spec_mtime_key(rest@[m as int]@) <= spec_mtime_key(
                        #[trigger] rest@[j]@,
                    ),
            decreases n - i,
        {
            if mtime_key(&rest[i]) < mtime_key(&rest[m]) {
                m = i;
            }
            i += 1;
        }
        let ghost old_rest = rest@;
        let ghost old_out = out@;
        let x = rest.remove(m);
        out.push(x);
        proof {
            assert(rest@.map_values(|f: FileStatus| f@) =~= old_rest.map_values(
                |f: FileStatus| f@,
            ).remove(m as int));
            assert(out@.map_values(|f: FileStatus| f@) =~= old_out.map_values(
                |f: FileStatus| f@,
            ).push(x@));
            assert(old_rest.map_values(|f: FileStatus| f@).remove(m as int).to_multiset()
                =~= old_rest.map_values(|f: FileStatus| f@).to_multiset().remove(
                old_rest.map_values(|f: FileStatus| f@)[m as int],
            ));
            assert(out@.map_values(|f: FileStatus| f@).to_multiset() =~= old_out.map_values(
                |f: FileStatus| f@,
            ).to_multiset().insert(x@));
            assert(out@.map_values(|f: FileStatus| f@).to_multiset().add(
                rest@.map_values(|f: FileStatus| f@).to_multiset(),
            ) =~= orig.to_multiset());
            assert(forall|j: int|
                0 <= j < rest@.len() ==> spec_mtime_key(x@) <= spec_mtime_key(
                    #[trigger] rest@[j]@,
                )) by {
                assert(forall|j: int|
                    0 <= j < rest@.len() ==> #[trigger] rest@[j] == (if j < m {
                        old_rest[j]
                    } else {
                        old_rest[j + 1]
                    }));
            }
        }
    }
    out
}

/// The window `skip` and `lines` cut from an ordered report: drop the
/// first `skip` items, keep at most `lines` of the rest.
pub fn select_window(files: Vec<FileStatus>, skip: usize, lines: usize) -> (r: Vec<FileStatus>)
    ensures
        ({
            let len = files@.len() as int;
            let lo = if (skip as int) < len {
                skip as int
            } else {
                len
            };
            r@ == files@.subrange(
                lo,
                if lo + (lines as int) < len {
                    lo + lines as int
                } else {
                    len
                },
            )
        }),
{
    let mut v = files;
    let ghost orig = v@;
    let mut dropped: usize = 0;
    #[verifier::loop_isolation(false)]
    while dropped < skip && v.len() > 0
        invariant
            dropped <= skip,
            dropped as int <= orig.len(),
            v@ == orig.skip(dropped as int),
        decreases skip - dropped,
    {
        v.remove(0);
        proof {
            assert(orig.skip(dropped as int).remove(0) =~= orig.skip(dropped + 1));
        }
        dropped += 1;
    }
    if v.len() > lines {
        v.truncate(lines);
    }
    proof {
        let len = orig.len() as int;
        let lo = if (skip as int) < len {
            skip as int
        } else {
            len
        };
        let hi = if lo + (lines as int) < len {
            lo + lines as int
        } else {
            len
        };
        assert(v@ =~= orig.subrange(lo, hi));
    }
    v
}

/// The decimal text of a number.
pub open spec fn spec_u64_text(n: int) -> Seq<char>
    decreases n,
{
    if n < 10 {
        seq![spec_digit_char(n)]
    } else {
        spec_u64_text(n / 10).push(spec_digit_char(n % 10))
    }
}

/// The character of one decimal digit.
pub open spec fn spec_digit_char(d: int) -> char {
    if d == 0 {
        '0'
    } else if d == 1 {
        '1'
    } else if d == 2 {
        '2'
    } else if d == 3 {
        '3'
    } else if d == 4 {
        '4'
    } else if d == 5 {
        '5'
    } else if d == 6 {
        '6'
    } else if d == 7 {
        '7'
    } else if d == 8 {
        '8'
    } else {
        '9'
    }
}

/// Render a number as decimal text.
pub fn format_u64(n: u64) -> (r: String)
    ensures
        r@ == spec_u64_text(n as int),
    decreases n,
{
    if n < 10 {
        let c: char = match n {
            0 => '0',
            1 => '1',
            2 => '2',
            3 => '3',
            4 => '4',
            5 => '5',
            6 => '6',
            7 => '7',
            8 => '8',
            _ => '9',
        };
        let mut s = String::new();
        push_char(&mut s, c);
        proof {
            assert(s@ =~= seq![spec_digit_char(n as int)]);
        }
        s
    } else {
        let mut s = format_u64(n / 10);
        let d = n % 10;
        let c: char = match d {
            0 => '0',
            1 => '1',
            2 => '2',
            3 => '3',
            4 => '4',
            5 => '5',
            6 => '6',
            7 => '7',
            8 => '8',
            _ => '9',
        };
        push_char(&mut s, c);
        s
    }
}

/// One line of the porcelain-short rendering: the index-status character,
/// the worktree-status character, a space, and the path.
pub fn status_line(f: &FileStatus) -> (r: String)
    ensures
        r@ == seq![f@.index_status.spec_to_char(), f@.worktree_status.spec_to_char(), ' ']
            + f@.path,
{
    let mut s = String::new();
    push_char(&mut s, f.index_status.to_char());
    push_char(&mut s, f.worktree_status.to_char());
    push_char(&mut s, ' ');
    s.append(f.path.as_str());
    proof {
        assert(s@ =~= seq![f@.index_status.spec_to_char(), f@.worktree_status.spec_to_char(), ' ']
            + f@.path);
    }
    s
}

/// One line of the oldest-changes report in its short form: the two
/// status characters, a space, the date text, a space, and the path.
pub fn goldest_short_line(f: &FileStatus, date_text: &str) -> (r: String)
    ensures
        r@ == seq![f@.index_status.spec_to_char(), f@.worktree_status.spec_to_char(), ' ']
            + date_text@ + seq![' '] + f@.path,
{
    let mut s = String::new();
    push_char(&mut s, f.index_status.to_char());
    push_char(&mut s, f.worktree_status.to_char());
    push_char(&mut s, ' ');
    s.append(date_text);
    push_char(&mut s, ' ');
    s.append(f.path.as_str());
    proof {
        assert(s@ =~= seq![f@.index_status.spec_to_char(), f@.worktree_status.spec_to_char(), ' ']
            + date_text@ + seq![' '] + f@.path);
    }
    s
}

/// One line of the oldest-changes report in its extended form: the short
/// form with the size appended after a space.
pub fn goldest_porcelain_line(f: &FileStatus, date_text: &str, size: u64) -> (r: String)
    ensures
        r@ == seq![f@.index_status.spec_to_char(), f@.worktree_status.spec_to_char(), ' ']
            + date_text@ + seq![' '] + f@.path + seq![' '] + spec_u64_text(size as int),
{
    let mut s = goldest_short_line(f, date_text);
    push_char(&mut s, ' ');
    let sz = format_u64(size);
    s.append(sz.as_str());
    proof {
        assert(s@ =~= seq![f@.index_status.spec_to_char(), f@.worktree_status.spec_to_char(), ' ']
            + date_text@ + seq![' '] + f@.path + seq![' '] + spec_u64_text(size as int));
    }
    s
}

/// One line of the oldest-changes report in its default form: the path, a
/// space, and the date text.
pub fn goldest_default_line(f: &FileStatus, date_text: &str) -> (r: String)
    ensures
        r@ == f@.path + seq![' '] + date_text@,
{
    let mut s = f.path.clone();
    push_char(&mut s, ' ');
    s.append(date_text);
    proof {
        assert(s@ =~= f@.path + seq![' '] + date_text@);
    }
    s
}

/// The text the report renders a modification time as: a function of the
/// time value alone, in the report's fixed date format.
pub uninterp spec fn timestamp_text_of(secs: int) -> Seq<char>;

/// Render a modification time, in seconds since the epoch, in the
/// report's date format.
///
/// Relies on chrono's DateTime::from_timestamp and its formatter with a
/// fixed format string: the text depends on the timestamp alone, and a
/// timestamp outside chrono's representable range renders as nothing.
/// The representable range reaches far beyond the year 9999, so every
/// timestamp before then renders.
#[verifier::external_body]
pub fn format_timestamp(secs: u64) -> (r: Option<String>)
    ensures
        r matches Some(s) ==> s@ == timestamp_text_of(secs as int),
        secs < 253402300800 ==> r is Some,
{
    let dt = chrono::DateTime::<chrono::Utc>::from_timestamp(i64::try_from(secs).ok()?, 0)?;
    Some(dt.format("%m-%d-%yT%H:%M:%SZ").to_string())
}

} // verus!
