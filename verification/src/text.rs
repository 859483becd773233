//! Text helpers: character-wise string comparison and the doc-comment
//! splitter.
//!
//! Doc text reaches the generator as one string: the documentation lines
//! of a type, field or variant, each already trimmed, joined with `'\n'`.
//! The splitter cuts it at the first blank line into a title and a
//! description.
use vstd::prelude::*;

verus! {

use crate::schema::opt_str_model;
use vstd::string::StrSliceExecFns;

/// Whether two strings hold the same characters.
pub fn str_eq(a: &str, b: &str) -> (r: bool)
    ensures
        r == (a@ == b@),
{
    let n = a.unicode_len();
    let m = b.unicode_len();
    if n != m {
        return false;
    }
    let mut i: usize = 0;
    while i < n
        invariant
            n == a@.len(),
            n == b@.len(),
            0 <= i <= n,
            forall|j: int| 0 <= j < i ==> a@[j] == b@[j],
        decreases n - i,
    {
        if a.get_char(i) != b.get_char(i) {
            return false;
        }
        i += 1;
    }
    proof {
        assert(a@ =~= b@);
    }
    true
}

/// Documentation lines joined with `'\n'`: what the lines of a doc
/// block, each already trimmed, become before the splitter sees them.
pub open spec fn joined_lines(lines: Seq<Seq<char>>) -> Seq<char>
    decreases lines.len(),
{
    if lines.len() == 0 {
        Seq::empty()
    } else if lines.len() == 1 {
        lines[0]
    } else {
        joined_lines(lines.drop_last()) + seq!['\n'] + lines.last()
    }
}

/// Join documentation lines with `'\n'`.
pub fn join_doc_lines(lines: &Vec<String>) -> (r: String)
    ensures
        r@ == joined_lines(crate::schema::str_seq_model(lines@)),
{
    let ghost lm = crate::schema::str_seq_model(lines@);
    proof {
        crate::schema::lemma_str_seq_model_len(lines@);
    }
    let n = lines.len();
    let mut out = String::new();
    let mut i: usize = 0;
    while i < n
        invariant
            n == lines@.len(),
            n == lm.len(),
            lm == crate::schema::str_seq_model(lines@),
            0 <= i <= n,
            out@ == joined_lines(lm.subrange(0, i as int)),
        decreases n - i,
    {
        proof {
            crate::schema::lemma_str_seq_model_index(lines@, i as int);
        }
        if i > 0 {
            out.append("\n");
        }
        out.append(lines[i].as_str());
        proof {
            let pre = lm.subrange(0, i as int);
            let cur = lm.subrange(0, i as int + 1);
            assert(cur.drop_last() =~= pre);
            assert(cur.last() == lm[i as int]);
            if i == 0 {
                assert(out@ =~= joined_lines(cur));
            } else {
                reveal_strlit("\n");
                assert("\n"@ =~= seq!['\n']);
                assert(out@ =~= joined_lines(pre) + seq!['\n'] + lm[i as int]);
            }
        }
        i += 1;
    }
    proof {
        assert(lm.subrange(0, n as int) =~= lm);
    }
    out
}

/// The position of the first blank line at or after `i`: the least
/// `k >= i` with `s[k] == '\n'` and `s[k + 1] == '\n'`, if any.
pub open spec fn find_blank_from(s: Seq<char>, i: int) -> Option<int>
    decreases s.len() - i,
{
    if i < 0 || i + 1 >= s.len() {
        None
    } else if s[i] == '\n' && s[i + 1] == '\n' {
        Some(i)
    } else {
        find_blank_from(s, i + 1)
    }
}

/// What the splitter returns: doc text cut at the first blank line.
///
/// Empty text yields both parts absent.  Text without a blank line has no
/// title and is a description whole.  Otherwise the text before the first
/// blank line is the title and everything after it, later blank lines
/// included, is the description.
pub open spec fn split_doc_model(s: Seq<char>) -> (Option<Seq<char>>, Option<Seq<char>>) {
    if s.len() == 0 {
        (None, None)
    } else {
        match find_blank_from(s, 0) {
            Some(k) => (Some(s.subrange(0, k)), Some(s.subrange(k + 2, s.len() as int))),
            None => (None, Some(s)),
        }
    }
}

proof fn lemma_find_blank_step(s: Seq<char>, i: int)
    requires
        0 <= i,
        i + 1 < s.len(),
        !(s[i] == '\n' && s[i + 1] == '\n'),
    ensures
        find_blank_from(s, i) == find_blank_from(s, i + 1),
{
}

/// Split doc text at the first blank line into title and description.
pub fn split_doc(doc: &str) -> (r: (Option<String>, Option<String>))
    ensures
        (opt_str_model(r.0), opt_str_model(r.1)) == split_doc_model(doc@),
{
    let n = doc.unicode_len();
    if n == 0 {
        return (None, None);
    }
    let mut i: usize = 0;
    while i < n - 1
        invariant
            1 <= n == doc@.len(),
            0 <= i <= n,
            find_blank_from(doc@, 0) == find_blank_from(doc@, i as int),
        decreases n - i,
    {
        if doc.get_char(i) == '\n' && doc.get_char(i + 1) == '\n' {
            let title = doc.substring_char(0, i);
            let desc = doc.substring_char(i + 2, n);
            return (Some(title.to_owned()), Some(desc.to_owned()));
        }
        proof {
            lemma_find_blank_step(doc@, i as int);
        }
        i += 1;
    }
    (None, Some(doc.to_owned()))
}

} // verus!
