//! Text utilities around the journal: word counting for the
//! acknowledgment, chunking long search results, formatting search
//! replies, attachment file names, and the sender check.

use vstd::prelude::*;

use crate::strutil::is_space_char;

verus! {

/// Words in `s`: maximal runs of non-whitespace characters, counted with
/// the state of the previous character (`prev_space` is true at the start).
pub open spec fn spec_word_count(s: Seq<char>, prev_space: bool) -> int
    decreases s.len(),
{
    if s.len() == 0 {
        0
    } else {
        (if prev_space && !is_space_char(s[0]) {
            1int
        } else {
            0int
        }) + spec_word_count(s.skip(1), is_space_char(s[0]))
    }
}

/// Count the whitespace-separated words of `content`.
pub fn count_words(content: &str) -> (r: usize)
    ensures
        r == spec_word_count(content@, true),
{
    let n = content.unicode_len();
    let mut count: usize = 0;
    let mut prev_space = true;
    let mut i: usize = 0;
    proof {
        assert(content@.skip(0) =~= content@);
    }
    while i < n
        invariant
            i <= n,
            n == content@.len(),
            count <= i,
            spec_word_count(content@, true) == count + spec_word_count(
                content@.skip(i as int),
                prev_space,
            ),
        decreases n - i,
    {
        let c = content.get_char(i);
        proof {
            let t = content@.skip(i as int);
            assert(t[0] == content@[i as int]);
            assert(t.skip(1) =~= content@.skip(i as int + 1));
        }
        if prev_space && !crate::strutil::is_space(c) {
            count += 1;
        }
        prev_space = crate::strutil::is_space(c);
        i += 1;
    }
    proof {
        assert(content@.skip(n as int) =~= Seq::<char>::empty());
    }
    count
}

/// The concatenation of a sequence of pieces.
pub open spec fn concat_all(parts: Seq<Seq<char>>) -> Seq<char>
    decreases parts.len(),
{
    if parts.len() == 0 {
        Seq::empty()
    } else {
        parts[0] + concat_all(parts.skip(1))
    }
}

/// Appending one piece extends the concatenation at its end.
proof fn lemma_concat_all_snoc(parts: Seq<Seq<char>>, p: Seq<char>)
    ensures
        concat_all(parts.push(p)) == concat_all(parts) + p,
    decreases parts.len(),
{
    let whole = parts.push(p);
    if parts.len() == 0 {
        assert(whole.skip(1) =~= Seq::<Seq<char>>::empty());
        assert(concat_all(Seq::<Seq<char>>::empty()) == Seq::<char>::empty());
        assert(whole[0] == p);
        assert(concat_all(whole) =~= concat_all(parts) + p);
    } else {
        lemma_concat_all_snoc(parts.skip(1), p);
        assert(whole.skip(1) =~= parts.skip(1).push(p));
        assert(whole[0] == parts[0]);
        assert(concat_all(whole) =~= concat_all(parts) + p);
    }
}

/// Cut `s` into consecutive chunks of `size` characters; only the final
/// chunk may be shorter, and no chunk is empty.
pub fn chunk_text(s: &str, size: usize) -> (r: Vec<String>)
    requires
        size > 0,
    ensures
        concat_all(r.deep_view()) == s@,
        forall|i: int| 0 <= i < r@.len() ==> 0 < #[trigger] r.deep_view()[i].len() <= size,
        forall|i: int| 0 <= i < r@.len() - 1 ==> #[trigger] r.deep_view()[i].len() == size,
        r@.len() == 0 <==> s@.len() == 0,
{
    let n = s.unicode_len();
    let mut chunks: Vec<String> = Vec::new();
    let mut pos: usize = 0;
    proof {
        assert(s@.take(0) =~= Seq::<char>::empty());
        assert(concat_all(Seq::<Seq<char>>::empty()) == Seq::<char>::empty());
    }
    while pos < n
        invariant
            size > 0,
            pos <= n,
            n == s@.len(),
            concat_all(chunks.deep_view()) == s@.take(pos as int),
            forall|i: int| 0 <= i < chunks@.len() ==> 0 < #[trigger] chunks.deep_view()[i].len() <= size,
            forall|i: int| 0 <= i < chunks@.len() - 1 ==> #[trigger] chunks.deep_view()[i].len() == size,
            chunks@.len() > 0 && pos < n ==> chunks.deep_view().last().len() == size,
            chunks@.len() == 0 ==> pos == 0,
        decreases n - pos,
    {
        let end: usize = if n - pos > size {
            pos + size
        } else {
            n
        };
        let piece = s.substring_char(pos, end);
        let ghost old_view = chunks.deep_view();
        proof {
            lemma_concat_all_snoc(old_view, piece@);
            assert(s@.take(pos as int) + s@.subrange(pos as int, end as int) =~= s@.take(
                end as int,
            ));
        }
        let owned = piece.to_owned();
        chunks.push(owned);
        proof {
            assert(chunks.deep_view() =~= old_view.push(piece@));
            assert(0 < piece@.len() <= size);
            assert forall|i: int| 0 <= i < chunks@.len() implies 0 < #[trigger] chunks.deep_view()[
                i
            ].len() <= size by {
                if i < chunks@.len() - 1 {
                    assert(chunks.deep_view()[i] == old_view[i]);
                    assert(0 < old_view[i].len() <= size);
                } else {
                    assert(chunks.deep_view()[i] == piece@);
                }
            }
            assert forall|i: int| 0 <= i < chunks@.len() - 1 implies #[trigger] chunks.deep_view()[
                i
            ].len() == size by {
                assert(chunks.deep_view()[i] == old_view[i]);
                if i == chunks@.len() - 2 {
                    assert(old_view.len() > 0 && pos < n);
                    assert(old_view[i] == old_view.last());
                } else {
                    assert(old_view[i].len() == size);
                }
            }
        }
        pos = end;
    }
    proof {
        assert(s@.take(n as int) =~= s@);
    }
    chunks
}

/// The reply for a search: the matches themselves when there are any, a
/// note naming the query when there are none, and the error text when the
/// search tool failed.
pub fn format_search_result(success: bool, stdout: &String, stderr: &String, query: &String) -> (r:
    String)
    ensures
        success && stdout@.len() > 0 ==> r@ == stdout@,
        success && stdout@.len() == 0 ==> r@ == "No matches found for query: '"@ + query@ + "'"@,
        !success ==> r@ == "Error executing search: "@ + stderr@,
{
    if success {
        if stdout.as_str().is_empty() {
            String::from_str("No matches found for query: '").concat(query.as_str()).concat("'")
        } else {
            stdout.clone()
        }
    } else {
        String::from_str("Error executing search: ").concat(stderr.as_str())
    }
}

/// `p` with every path separator replaced by a dash.
pub open spec fn spec_sanitized(p: Seq<char>) -> Seq<char> {
    p.map_values(
        |c: char|
            if c == '/' {
                '-'
            } else {
                c
            },
    )
}

/// The name an attachment is saved under: the timestamp key, a dash, and
/// the transport-side file path with its separators flattened to dashes.
pub fn attachment_filename(key: &str, path: &str) -> (r: String)
    ensures
        r@ == key@ + seq!['-'] + spec_sanitized(path@),
{
    let n = path.unicode_len();
    let mut r = String::from_str(key).concat("-");
    proof {
        reveal_strlit("-");
        assert(r@ =~= key@ + seq!['-'] + spec_sanitized(path@.take(0)));
    }
    let mut start: usize = 0;
    let mut i: usize = 0;
    while i < n
        invariant
            start <= i <= n,
            n == path@.len(),
            r@ == key@ + seq!['-'] + spec_sanitized(path@.take(start as int)),
            forall|j: int| start <= j < i ==> path@[j] != '/',
        decreases n - i,
    {
        if path.get_char(i) == '/' {
            let seg = path.substring_char(start, i);
            r.append(seg);
            r.append("-");
            proof {
                reveal_strlit("-");
                assert("-"@ =~= seq!['-']);
                assert(r@ =~= key@ + seq!['-'] + spec_sanitized(path@.take(i as int + 1)));
            }
            start = i + 1;
        }
        i += 1;
    }
    let seg = path.substring_char(start, n);
    r.append(seg);
    proof {
        assert(r@ =~= key@ + seq!['-'] + spec_sanitized(path@));
    }
    r
}

/// Only the one configured sender may use the journal; the check is an
/// exact user-name match.
pub fn is_authorized(sender: &String, expected: &String) -> (r: bool)
    ensures
        r == (sender@ == expected@),
{
    sender.eq(expected)
}

} // verus!
