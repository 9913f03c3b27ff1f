//! The text sanitizer.
//!
//! Before JSON is looked for, the raw answer is stripped of markdown fence
//! markers and of lines that are nothing but a bare section heading. Fence
//! markers are removed literally, not by dropping their line, since a marker
//! may share a line with content; a line holding an opening brace is never
//! dropped, however heading-like it reads.
use vstd::prelude::*;
use vstd::string::StringSliceAdditionalSpecFns;
use crate::advisor::DbAdvisor;
use crate::json::clone_bytes;
use crate::text::CR;
use crate::text::LBRACE;
use crate::text::LF;
use crate::text::eq_ignore_ascii_case;
use crate::text::find_byte_from;
use crate::text::has_prefix;
use crate::text::remove_all;
use crate::text::remove_all_bytes;
use crate::text::seq_views;
use crate::text::trim;
use crate::text::trim_bytes;

verus! {

/// `t` with all markdown fence markers removed: first the lower-case and
/// upper-case tagged openers, then every remaining bare fence.
pub open spec fn defenced(t: Seq<u8>) -> Seq<u8> {
    remove_all(
        remove_all(remove_all(t, "```json".spec_bytes()), "```JSON".spec_bytes()),
        "```".spec_bytes(),
    )
}

/// A terminated line with a trailing carriage return loses it.
pub open spec fn strip_cr(l: Seq<u8>) -> Seq<u8> {
    if l.len() > 0 && l.last() == CR {
        l.drop_last()
    } else {
        l
    }
}

/// The lines of `s` from position `i` on, split at line feeds. A line ended
/// by a feed loses a carriage return just before it; a final unterminated
/// line keeps its bytes as they stand; a trailing feed opens no empty line.
pub open spec fn lines_from(s: Seq<u8>, i: int) -> Seq<Seq<u8>>
    decreases s.len() - i,
    via lines_from_decreases
{
    if i < 0 || i >= s.len() {
        Seq::empty()
    } else {
        match find_byte_from(s, LF, i) {
            Some(j) => seq![strip_cr(s.subrange(i, j))] + lines_from(s, j + 1),
            None => seq![s.subrange(i, s.len() as int)],
        }
    }
}

#[via_fn]
proof fn lines_from_decreases(s: Seq<u8>, i: int) {
    if 0 <= i < s.len() {
        crate::text::lemma_find_byte_found(s, LF, i);
    }
}

/// A line that is nothing but a bare section heading: once trimmed, it
/// equals one of the known headings up to ASCII case, or it starts with
/// `Diagnostic` or `Actions` and holds no opening brace.
pub open spec fn is_heading_line(l: Seq<u8>) -> bool {
    let t = trim(l);
    ||| eq_ignore_ascii_case(t, "Diagnostic".spec_bytes())
    ||| eq_ignore_ascii_case(t, "Actions recommandées".spec_bytes())
    ||| eq_ignore_ascii_case(t, "Actions recommandees".spec_bytes())
    ||| eq_ignore_ascii_case(t, "Risques".spec_bytes())
    ||| eq_ignore_ascii_case(t, "SQL suggéré".spec_bytes())
    ||| eq_ignore_ascii_case(t, "SQL suggere".spec_bytes())
    ||| (has_prefix(t, "Diagnostic".spec_bytes()) && find_byte_from(t, LBRACE, 0) is None)
    ||| (has_prefix(t, "Actions".spec_bytes()) && find_byte_from(t, LBRACE, 0) is None)
}

/// The lines among `ls`, from position `i` on, that are not bare headings.
pub open spec fn kept_lines_from(ls: Seq<Seq<u8>>, i: int) -> Seq<Seq<u8>>
    decreases ls.len() - i,
{
    if i < 0 || i >= ls.len() {
        Seq::empty()
    } else {
        (if !is_heading_line(ls[i]) {
            seq![ls[i]]
        } else {
            Seq::empty()
        }) + kept_lines_from(ls, i + 1)
    }
}

/// The lines of `ls` from position `i` on, joined by line feeds.
pub open spec fn join_lf_from(ls: Seq<Seq<u8>>, i: int) -> Seq<u8>
    decreases ls.len() - i,
{
    if i < 0 || i >= ls.len() {
        Seq::empty()
    } else {
        ls[i] + (if i + 1 < ls.len() {
            seq![LF]
        } else {
            Seq::empty()
        }) + join_lf_from(ls, i + 1)
    }
}

/// What the sanitizer returns for `t`: fence markers removed, bare heading
/// lines dropped, the rest joined back and trimmed.
pub open spec fn clean_spec(t: Seq<u8>) -> Seq<u8> {
    trim(join_lf_from(kept_lines_from(lines_from(defenced(t), 0), 0), 0))
}

/// Splits `s` into lines at line feeds, as [`lines_from`] describes.
pub fn split_lines(s: &[u8]) -> (r: Vec<Vec<u8>>)
    ensures
        seq_views(r@) == lines_from(s@, 0),
{
    let mut out: Vec<Vec<u8>> = Vec::new();
    let mut i: usize = 0;
    while i < s.len()
        invariant
            0 <= i <= s@.len(),
            seq_views(out@) + lines_from(s@, i as int) == lines_from(s@, 0),
        decreases s@.len() - i,
    {
        match crate::text::find_byte_at(s, LF, i) {
            Some(j) => {
                let mut line = crate::text::copy_range(s, i, j);
                if line.len() > 0 && line[line.len() - 1] == CR {
                    let _ = line.pop();
                }
                proof {
                    assert(line@ =~= strip_cr(s@.subrange(i as int, j as int)));
                }
                out.push(line);
                i = j + 1;
            },
            None => {
                let line = crate::text::copy_range(s, i, s.len());
                out.push(line);
                i = s.len();
            },
        }
        proof {
            assert(seq_views(out@) + lines_from(s@, i as int) =~~= lines_from(s@, 0));
        }
    }
    proof {
        assert(seq_views(out@) =~~= lines_from(s@, 0));
    }
    out
}

/// Whether `line` is a bare section heading, as [`is_heading_line`] says.
pub fn is_heading(line: &[u8]) -> (r: bool)
    ensures
        r == is_heading_line(line@),
{
    let t = trim_bytes(line);
    let ts = t.as_slice();
    if crate::text::eq_ascii_ci(ts, "Diagnostic".as_bytes()) {
        return true;
    }
    if crate::text::eq_ascii_ci(ts, "Actions recommandées".as_bytes()) {
        return true;
    }
    if crate::text::eq_ascii_ci(ts, "Actions recommandees".as_bytes()) {
        return true;
    }
    if crate::text::eq_ascii_ci(ts, "Risques".as_bytes()) {
        return true;
    }
    if crate::text::eq_ascii_ci(ts, "SQL suggéré".as_bytes()) {
        return true;
    }
    if crate::text::eq_ascii_ci(ts, "SQL suggere".as_bytes()) {
        return true;
    }
    let has_brace = crate::text::contains_byte(ts, LBRACE);
    if !has_brace && crate::text::starts_with(ts, "Diagnostic".as_bytes()) {
        return true;
    }
    if !has_brace && crate::text::starts_with(ts, "Actions".as_bytes()) {
        return true;
    }
    false
}

impl DbAdvisor {
    /// Sanitizes raw answer text: removes markdown fence markers, drops
    /// lines that are nothing but a bare heading, and trims the result.
    pub fn clean_text(text: &[u8]) -> (r: Vec<u8>)
        ensures
            r@ == clean_spec(text@),
    {
        let a = remove_all_bytes(text, "```json".as_bytes());
        let b = remove_all_bytes(a.as_slice(), "```JSON".as_bytes());
        let c = remove_all_bytes(b.as_slice(), "```".as_bytes());
        let lines = split_lines(c.as_slice());
        let ghost lv = seq_views(lines@);
        let mut kept: Vec<Vec<u8>> = Vec::new();
        let mut i: usize = 0;
        while i < lines.len()
            invariant
                0 <= i <= lines@.len(),
                lv == seq_views(lines@),
                seq_views(kept@) + kept_lines_from(lv, i as int) == kept_lines_from(lv, 0),
            decreases lines@.len() - i,
        {
            if !is_heading(lines[i].as_slice()) {
                kept.push(clone_bytes(&lines[i]));
            }
            i = i + 1;
            proof {
                assert(seq_views(kept@) + kept_lines_from(lv, i as int) =~~= kept_lines_from(
                    lv,
                    0,
                ));
            }
        }
        proof {
            assert(seq_views(kept@) =~~= kept_lines_from(lv, 0));
        }
        let ghost kv = seq_views(kept@);
        let mut joined: Vec<u8> = Vec::new();
        let mut j: usize = 0;
        while j < kept.len()
            invariant
                0 <= j <= kept@.len(),
                kv == seq_views(kept@),
                joined@ + join_lf_from(kv, j as int) == join_lf_from(kv, 0),
            decreases kept@.len() - j,
        {
            joined.extend_from_slice(kept[j].as_slice());
            if j + 1 < kept.len() {
                joined.push(LF);
            }
            j = j + 1;
            proof {
                assert(joined@ + join_lf_from(kv, j as int) =~= join_lf_from(kv, 0));
            }
        }
        proof {
            assert(joined@ =~= join_lf_from(kv, 0));
        }
        trim_bytes(joined.as_slice())
    }
}

} // verus!
