//! The checkbox prefix grammar: a message body is rewritten line by line
//! before it is written to a journal file.
//!
//! On each logical line: the marker `"-x "` becomes a closed checkbox
//! `"- [x] "`, a plain `"- "` becomes an open checkbox `"- [ ] "`, a line
//! that already carries a checkbox prefix is left alone (so the rewrite
//! never double-prefixes), and anything else passes through unchanged.

use vstd::prelude::*;

use crate::strutil::{first_at, lemma_first_at, seq_starts_with, str_starts_with};

verus! {

/// The marker a sender writes for a completed item.
pub open spec fn done_marker() -> Seq<char> {
    seq!['-', 'x', ' ']
}

/// The marker a sender writes for an open item.
pub open spec fn open_marker() -> Seq<char> {
    seq!['-', ' ']
}

/// The rendered open checkbox prefix, `"- [ ] "`.
pub open spec fn open_checkbox() -> Seq<char> {
    seq!['-', ' ', '[', ' ', ']', ' ']
}

/// The rendered closed checkbox prefix, `"- [x] "`.
pub open spec fn done_checkbox() -> Seq<char> {
    seq!['-', ' ', '[', 'x', ']', ' ']
}

/// The rewrite of one logical line.
pub open spec fn spec_transform_line(s: Seq<char>) -> Seq<char> {
    if seq_starts_with(s, done_marker()) {
        done_checkbox() + s.skip(3)
    } else if seq_starts_with(s, open_checkbox()) || seq_starts_with(s, done_checkbox()) {
        s
    } else if seq_starts_with(s, open_marker()) {
        open_checkbox() + s.skip(2)
    } else {
        s
    }
}

pub fn transform_line(line: &str) -> (r: String)
    ensures
        r@ == spec_transform_line(line@),
{
    proof {
        reveal_strlit("-x ");
        reveal_strlit("- ");
        reveal_strlit("- [ ] ");
        reveal_strlit("- [x] ");
        assert("-x "@ =~= done_marker());
        assert("- "@ =~= open_marker());
        assert("- [ ] "@ =~= open_checkbox());
        assert("- [x] "@ =~= done_checkbox());
    }
    let n = line.unicode_len();
    if str_starts_with(line, "-x ") {
        let rest = line.substring_char(3, n);
        let r = String::from_str("- [x] ").concat(rest);
        proof {
            assert(line@.subrange(3, n as int) =~= line@.skip(3));
        }
        r
    } else if str_starts_with(line, "- [ ] ") || str_starts_with(line, "- [x] ") {
        line.to_owned()
    } else if str_starts_with(line, "- ") {
        let rest = line.substring_char(2, n);
        let r = String::from_str("- [ ] ").concat(rest);
        proof {
            assert(line@.subrange(2, n as int) =~= line@.skip(2));
        }
        r
    } else {
        line.to_owned()
    }
}

/// The line rewrite is idempotent: a second pass changes nothing, so a
/// rewritten body can safely be rewritten again without double-prefixing.
pub proof fn lemma_transform_line_idempotent(s: Seq<char>)
    ensures
        spec_transform_line(spec_transform_line(s)) == spec_transform_line(s),
{
    let r = spec_transform_line(s);
    if seq_starts_with(s, done_marker()) {
        assert(r.take(6) =~= done_checkbox());
        assert(r[1] == ' ');
        assert(!seq_starts_with(r, done_marker())) by {
            if seq_starts_with(r, done_marker()) {
                assert(r.take(3)[1] == r[1]);
            }
        }
    } else if seq_starts_with(s, open_checkbox()) || seq_starts_with(s, done_checkbox()) {
        assert(s[1] == ' ') by {
            if seq_starts_with(s, open_checkbox()) {
                assert(s.take(6)[1] == s[1]);
            } else {
                assert(s.take(6)[1] == s[1]);
            }
        }
        assert(!seq_starts_with(s, done_marker())) by {
            if seq_starts_with(s, done_marker()) {
                assert(s.take(3)[1] == s[1]);
            }
        }
    } else if seq_starts_with(s, open_marker()) {
        assert(r.take(6) =~= open_checkbox());
        assert(r[1] == ' ');
        assert(!seq_starts_with(r, done_marker())) by {
            if seq_starts_with(r, done_marker()) {
                assert(r.take(3)[1] == r[1]);
            }
        }
    } else {
    }
}

/// The rewrite of a whole body: each logical line (separated by `'\n'`)
/// is rewritten on its own and the lines are joined back together.
pub open spec fn spec_transform_body(s: Seq<char>) -> Seq<char>
    decreases s.len(),
{
    let k = first_at(s, '\n') as int;
    if k >= s.len() {
        spec_transform_line(s)
    } else {
        spec_transform_line(s.take(k)) + seq!['\n'] + spec_transform_body(s.skip(k + 1))
    }
}

pub fn transform_body(text: &str) -> (r: String)
    ensures
        r@ == spec_transform_body(text@),
{
    let n = text.unicode_len();
    let mut acc = String::new();
    let mut pos: usize = 0;
    proof {
        assert(text@.skip(0) =~= text@);
    }
    while pos < n
        invariant
            pos <= n,
            n == text@.len(),
            spec_transform_body(text@) == acc@ + spec_transform_body(text@.skip(pos as int)),
        decreases n - pos,
    {
        let rem = text.substring_char(pos, n);
        proof {
            assert(rem@ =~= text@.skip(pos as int));
        }
        match crate::strutil::find_char(text, '\n', pos) {
            Some(k) => {
                let piece = text.substring_char(pos, k);
                let t = transform_line(piece);
                acc.append(t.as_str());
                acc.append("\n");
                proof {
                    reveal_strlit("\n");
                    let s = text@.skip(pos as int);
                    assert(s[k - pos] == text@[k as int]);
                    assert forall|j: int| 0 <= j < k - pos implies s[j] != '\n' by {
                        assert(s[j] == text@[j + pos]);
                    }
                    crate::strutil::lemma_first_at_witness(s, '\n', k - pos);
                    assert(s.take(k - pos) =~= text@.subrange(pos as int, k as int));
                    assert(s.skip(k - pos + 1) =~= text@.skip(k + 1));
                    assert(spec_transform_body(s) == spec_transform_line(
                        text@.subrange(pos as int, k as int),
                    ) + seq!['\n'] + spec_transform_body(text@.skip(k + 1)));
                }
                pos = k + 1;
            },
            None => {
                let piece = text.substring_char(pos, n);
                let t = transform_line(piece);
                acc.append(t.as_str());
                proof {
                    let s = text@.skip(pos as int);
                    assert(first_at(s, '\n') == s.len());
                    assert(s =~= text@.subrange(pos as int, n as int));
                    assert(spec_transform_body(s) == spec_transform_line(s));
                    assert(text@.skip(n as int) =~= Seq::<char>::empty());
                }
                pos = n;
            },
        }
    }
    proof {
        let s = text@.skip(pos as int);
        assert(s =~= Seq::<char>::empty());
        lemma_first_at(s, '\n');
        assert(spec_transform_body(s) == spec_transform_line(s));
        assert(!seq_starts_with(s, done_marker()));
        assert(!seq_starts_with(s, open_checkbox()));
        assert(!seq_starts_with(s, done_checkbox()));
        assert(!seq_starts_with(s, open_marker()));
        assert(spec_transform_line(s) == s);
        assert(acc@ + s =~= acc@);
    }
    acc
}

} // verus!
