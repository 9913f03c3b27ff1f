//! The balanced-span extractor.
//!
//! Sanitized text is scanned from its first opening brace, tracking brace
//! depth together with string-literal and escape context, so that braces
//! inside JSON strings are passed over. When the depth returns to zero the
//! span is balanced; when the text runs out first, the span to the last
//! closing brace is taken as a best effort; with no closing brace after the
//! opening one, there is no JSON to extract.
use vstd::prelude::*;
use crate::advisor::DbAdvisor;
use crate::sanitize::clean_spec;
use crate::text::BACKSLASH;
use crate::text::LBRACE;
use crate::text::QUOTE;
use crate::text::RBRACE;
use crate::text::copy_range;
use crate::text::find_byte_at;
use crate::text::find_byte_from;
use crate::text::rfind_byte;
use crate::text::rfind_byte_before;

verus! {

/// Where the balanced span that begins before position `i` ends, given the
/// scanner's state at `i`: brace depth, whether inside a string literal,
/// and whether the last byte was an unconsumed backslash. The returned
/// index is that of the closing brace; `None` means the text ran out first.
pub open spec fn scan_end(s: Seq<u8>, i: int, depth: int, in_str: bool, esc: bool) -> Option<int>
    decreases s.len() - i,
{
    if i < 0 || i >= s.len() {
        None
    } else if esc {
        scan_end(s, i + 1, depth, in_str, false)
    } else if s[i] == BACKSLASH {
        scan_end(s, i + 1, depth, in_str, true)
    } else if s[i] == QUOTE {
        scan_end(s, i + 1, depth, !in_str, false)
    } else if s[i] == LBRACE && !in_str {
        scan_end(s, i + 1, depth + 1, in_str, false)
    } else if s[i] == RBRACE && !in_str {
        if depth == 1 {
            Some(i)
        } else {
            scan_end(s, i + 1, depth - 1, in_str, false)
        }
    } else {
        scan_end(s, i + 1, depth, in_str, false)
    }
}

/// What the extractor returns for raw text `t`: the balanced span from the
/// first opening brace of the sanitized text, or the best-effort span to the
/// last closing brace, or nothing.
pub open spec fn extract_spec(t: Seq<u8>) -> Option<Seq<u8>> {
    let c = clean_spec(t);
    match find_byte_from(c, LBRACE, 0) {
        None => None,
        Some(st) => match scan_end(c, st, 0, false, false) {
            Some(e) => Some(c.subrange(st, e + 1)),
            None => match rfind_byte_before(c, RBRACE, c.len() as int) {
                Some(lb) => if lb > st {
                    Some(c.subrange(st, lb + 1))
                } else {
                    None
                },
                None => None,
            },
        },
    }
}

impl DbAdvisor {
    /// Extracts a JSON object span from raw text: the text is sanitized,
    /// then scanned from its first `{` for the matching `}` outside string
    /// literals; a truncated object falls back to the span ending at the
    /// last `}`; text with no such span yields nothing.
    pub fn extract_json_from_text(text: &[u8]) -> (r: Option<Vec<u8>>)
        ensures
            extract_spec(text@) == (match r {
                Some(v) => Some(v@),
                None => None::<Seq<u8>>,
            }),
    {
        let cleaned = Self::clean_text(text);
        let cs = cleaned.as_slice();
        let ghost c = cleaned@;
        let start: usize = match find_byte_at(cs, LBRACE, 0) {
            Some(st) => st,
            None => {
                return None;
            },
        };
        proof {
            crate::text::lemma_find_byte_found(c, LBRACE, 0);
        }
        let mut i: usize = start;
        let mut depth: usize = 0;
        let mut in_str = false;
        let mut esc = false;
        let mut end: Option<usize> = None;
        while i < cs.len()
            invariant_except_break
                start <= i <= c.len(),
                c.len() <= usize::MAX,
                cs@ == c,
                c[start as int] == LBRACE,
                end is None,
                i == start ==> depth == 0 && !in_str && !esc,
                i > start ==> depth >= 1,
                depth <= i - start,
                scan_end(c, start as int, 0, false, false) == scan_end(
                    c,
                    i as int,
                    depth as int,
                    in_str,
                    esc,
                ),
            ensures
                match end {
                    Some(e) => start <= e < c.len() && scan_end(c, start as int, 0, false, false)
                        == Some(e as int),
                    None => scan_end(c, start as int, 0, false, false) is None,
                },
            decreases c.len() - i,
        {
            let ch = cs[i];
            if esc {
                esc = false;
            } else if ch == BACKSLASH {
                esc = true;
            } else if ch == QUOTE {
                in_str = !in_str;
            } else if ch == LBRACE && !in_str {
                depth = depth + 1;
            } else if ch == RBRACE && !in_str {
                if depth == 1 {
                    end = Some(i);
                    break ;
                }
                depth = depth - 1;
            }
            i = i + 1;
        }
        match end {
            Some(e) => Some(copy_range(cs, start, e + 1)),
            None => {
                match rfind_byte(cs, RBRACE) {
                    Some(lb) => {
                        if lb > start {
                            Some(copy_range(cs, start, lb + 1))
                        } else {
                            None
                        }
                    },
                    None => None,
                }
            },
        }
    }
}

} // verus!
