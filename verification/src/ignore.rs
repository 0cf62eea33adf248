//! The ignore-list rules: which lines of a pattern file are patterns, how
//! a pattern is removed, and where a repository keeps its pattern file.
//! Reading and writing the file itself is the caller's business; the rules
//! here work on the file's content as text.

use vstd::prelude::*;
use vstd::string::StringExecFns;

use crate::text::spec_split;
use crate::text::spec_trim;
use crate::text::split_at_char;
use crate::text::trim;

verus! {

/// Whether a line of a pattern file counts as a pattern: it is kept when
/// it is not blank and does not start with `#`.
pub open spec fn spec_keep_line(l: Seq<char>) -> bool {
    spec_trim(l).len() > 0 && !(l.len() > 0 && l[0] == '#')
}

/// The patterns a pattern file's content holds: its non-blank,
/// non-comment lines, in order, kept as written.
pub open spec fn spec_patterns(content: Seq<char>) -> Seq<Seq<char>> {
    spec_split(content, '\n').filter(|l: Seq<char>| spec_keep_line(l))
}

/// Whether a line starts with `#`.
fn starts_with_hash(l: &str) -> (r: bool)
    ensures
        r == (l@.len() > 0 && l@[0] == '#'),
{
    if l.unicode_len() == 0 {
        return false;
    }
    l.get_char(0) == '#'
}

/// Read the patterns out of a pattern file's content: exactly its
/// non-blank, non-comment lines, in order.
pub fn read_patterns(content: &String) -> (r: Vec<String>)
    ensures
        r@.map_values(|p: String| p@) == spec_patterns(content@),
{
    let ghost pred = |l: Seq<char>| spec_keep_line(l);
    let mut rest = split_at_char(content.as_str(), '\n');
    let ghost model = rest@.map_values(|p: String| p@);
    let mut out: Vec<String> = Vec::new();
    let ghost k: int = 0;
    proof {
        reveal(Seq::filter);
        assert(model.take(0) =~= Seq::<Seq<char>>::empty());
    }
    #[verifier::loop_isolation(false)]
    while rest.len() > 0
        invariant
            0 <= k <= model.len(),
            rest@.map_values(|p: String| p@) == model.skip(k),
            out@.map_values(|p: String| p@) == model.take(k).filter(pred),
        decreases rest@.len(),
    {
        let ghost prev = out@;
        let line = rest.remove(0);
        proof {
            reveal(Seq::filter);
            assert(rest@.map_values(|p: String| p@) =~= model.skip(k).drop_first());
            assert(model.skip(k).drop_first() =~= model.skip(k + 1));
            assert(line@ == model.skip(k)[0]);
            assert(model.skip(k)[0] == model[k]);
            assert(model.take(k + 1).drop_last() =~= model.take(k));
            assert(model.take(k + 1).last() == model[k]);
        }
        let t = trim(line.as_str());
        if t.as_str().unicode_len() > 0 && !starts_with_hash(line.as_str()) {
            out.push(line);
            proof {
                assert(out@.map_values(|p: String| p@) =~= prev.map_values(
                    |p: String| p@,
                ).push(model[k]));
            }
        }
        proof {
            k = k + 1;
        }
    }
    proof {
        assert(model.skip(k).len() == 0);
        assert(k == model.len());
        assert(model.take(k) =~= model);
        assert(model == spec_split(content@, '\n'));
    }
    out
}

/// List the patterns a pattern file's content holds; listing is reading.
pub fn list_patterns(content: &String) -> (r: Vec<String>)
    ensures
        r@.map_values(|p: String| p@) == spec_patterns(content@),
{
    read_patterns(content)
}

/// The patterns joined back into file content, one per line.
pub open spec fn spec_join_lines(lines: Seq<Seq<char>>) -> Seq<char>
    decreases lines.len(),
{
    if lines.len() == 0 {
        Seq::empty()
    } else if lines.len() == 1 {
        lines[0]
    } else {
        spec_join_lines(lines.drop_last()) + seq!['\n'] + lines.last()
    }
}

/// What removing a pattern from a pattern file's content leaves: the
/// remaining patterns joined with newlines, or nothing when no pattern
/// remains and the file is to be deleted.
pub fn remove_pattern(content: &String, pattern: &String) -> (r: Option<String>)
    ensures
        ({
            let kept = spec_patterns(content@).filter(|p: Seq<char>| p != pattern@);
            match r {
                Option::None => kept.len() == 0,
                Option::Some(s) => kept.len() > 0 && s@ == spec_join_lines(kept),
            }
        }),
{
    let ghost pred = |p: Seq<char>| p != pattern@;
    let patterns = read_patterns(content);
    let ghost pats = patterns@.map_values(|p: String| p@);
    let mut rest = patterns;
    let mut kept: Vec<String> = Vec::new();
    let ghost k: int = 0;
    proof {
        reveal(Seq::filter);
        assert(pats.take(0) =~= Seq::<Seq<char>>::empty());
    }
    #[verifier::loop_isolation(false)]
    while rest.len() > 0
        invariant
            0 <= k <= pats.len(),
            rest@.map_values(|p: String| p@) == pats.skip(k),
            kept@.map_values(|p: String| p@) == pats.take(k).filter(pred),
        decreases rest@.len(),
    {
        let ghost prev = kept@;
        let p = rest.remove(0);
        proof {
            reveal(Seq::filter);
            assert(rest@.map_values(|q: String| q@) =~= pats.skip(k).drop_first());
            assert(pats.skip(k).drop_first() =~= pats.skip(k + 1));
            assert(p@ == pats.skip(k)[0]);
            assert(pats.skip(k)[0] == pats[k]);
            assert(pats.take(k + 1).drop_last() =~= pats.take(k));
            assert(pats.take(k + 1).last() == pats[k]);
        }
        if !p.eq(pattern) {
            kept.push(p);
            proof {
                assert(kept@.map_values(|q: String| q@) =~= prev.map_values(
                    |q: String| q@,
                ).push(pats[k]));
            }
        }
        proof {
            k = k + 1;
        }
    }
    proof {
        assert(pats.skip(k).len() == 0);
        assert(k == pats.len());
        assert(pats.take(k) =~= pats);
    }
    if kept.len() == 0 {
        return Option::None;
    }
    let ghost kept_model = kept@.map_values(|p: String| p@);
    let mut content_out: String = String::new();
    let n = kept.len();
    let mut i: usize = 0;
    proof {
        assert(spec_join_lines(kept_model.take(0)) =~= Seq::<char>::empty());
    }
    #[verifier::loop_isolation(false)]
    while i < n
        invariant
            i <= n,
            kept@.map_values(|p: String| p@) == kept_model,
            n == kept@.len(),
            content_out@ == spec_join_lines(kept_model.take(i as int)),
        decreases n - i,
    {
        proof {
            assert(kept_model.take(i + 1).drop_last() =~= kept_model.take(i as int));
            assert(kept_model.take(i + 1).last() == kept_model[i as int]);
            assert(kept_model[i as int] == kept@[i as int]@);
        }
        if i > 0 {
            content_out.append("\n");
            proof {
                reveal_strlit("\n");
                assert("\n"@ =~= seq!['\n']);
            }
        }
        content_out.append(kept[i].as_str());
        proof {
            if i == 0 {
                assert(kept_model.take(1) =~= seq![kept_model[0]]);
                assert(content_out@ =~= spec_join_lines(kept_model.take(1)));
            } else {
                assert(content_out@ =~= spec_join_lines(kept_model.take(i + 1)));
            }
        }
        i += 1;
    }
    proof {
        assert(kept_model.take(n as int) =~= kept_model);
    }
    Option::Some(content_out)
}

/// The scope prefix of an ignore-list message: the word `global` and a
/// space for the user-wide list, nothing for the repository's own.
pub open spec fn spec_scope_text(global: bool) -> Seq<char> {
    if global {
        "global "@
    } else {
        Seq::empty()
    }
}

/// The message reported after adding a pattern to an ignore list.
pub fn added_message(pattern: &str, global: bool) -> (r: String)
    ensures
        r@ == "Added '"@ + pattern@ + "' to "@ + spec_scope_text(global) + "ignore list"@,
{
    let mut r = String::new();
    r.append("Added '");
    r.append(pattern);
    r.append("' to ");
    if global {
        r.append("global ");
    }
    r.append("ignore list");
    proof {
        assert(r@ =~= "Added '"@ + pattern@ + "' to "@ + spec_scope_text(global)
            + "ignore list"@);
    }
    r
}

/// The message reported after removing a pattern from an ignore list.
pub fn removed_message(pattern: &str, global: bool) -> (r: String)
    ensures
        r@ == "Removed '"@ + pattern@ + "' from "@ + spec_scope_text(global) + "ignore list"@,
{
    let mut r = String::new();
    r.append("Removed '");
    r.append(pattern);
    r.append("' from ");
    if global {
        r.append("global ");
    }
    r.append("ignore list");
    proof {
        assert(r@ =~= "Removed '"@ + pattern@ + "' from "@ + spec_scope_text(global)
            + "ignore list"@);
    }
    r
}

/// The message reported when an ignore list holds no patterns.
pub fn no_patterns_message(global: bool) -> (r: String)
    ensures
        r@ == "No patterns in "@ + spec_scope_text(global) + "ignore list"@,
{
    let mut r = String::new();
    r.append("No patterns in ");
    if global {
        r.append("global ");
    }
    r.append("ignore list");
    proof {
        assert(r@ =~= "No patterns in "@ + spec_scope_text(global) + "ignore list"@);
    }
    r
}

/// Where a repository keeps its pattern file: under the version-control
/// metadata directory of the repository root.
pub fn repo_nah_path(repo_root: &String) -> (r: String)
    ensures
        r@ == repo_root@ + "/.git/nah"@,
{
    let mut r = repo_root.clone();
    r.append("/.git/nah");
    r
}

} // verus!
