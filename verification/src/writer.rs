//! Entry composition: the exact text appended to a journal file.
//!
//! The sections stand in a fixed order, each terminated by a newline: the
//! transformed body when the message has one, a blank-line separator, the
//! link block (one markdown link per line, omitted when empty), a second
//! blank-line separator, and an optional footer line (forward attribution
//! or an acknowledgment marker).

use vstd::prelude::*;

verus! {

/// The link block: each link on its own line.
pub open spec fn spec_link_block(links: Seq<Seq<char>>) -> Seq<char>
    decreases links.len(),
{
    if links.len() == 0 {
        Seq::empty()
    } else {
        links[0] + seq!['\n'] + spec_link_block(links.skip(1))
    }
}

/// The full entry for one message.
pub open spec fn spec_compose(
    body: Option<Seq<char>>,
    links: Seq<Seq<char>>,
    footer: Option<Seq<char>>,
) -> Seq<char> {
    (match body {
        Some(b) => b + seq!['\n'],
        None => Seq::empty(),
    }) + seq!['\n'] + spec_link_block(links) + seq!['\n'] + (match footer {
        Some(f) => f + seq!['\n'],
        None => Seq::empty(),
    })
}

/// Lay out one journal entry: body, separator, link block, separator,
/// optional footer, each line newline-terminated.
pub fn compose_entry(body: Option<&String>, links: &Vec<String>, footer: Option<&String>) -> (r:
    String)
    ensures
        r@ == spec_compose(
            match body {
                Some(b) => Some(b@),
                None => None,
            },
            links.deep_view(),
            match footer {
                Some(f) => Some(f@),
                None => None,
            },
        ),
{
    let mut r = String::new();
    if let Some(b) = body {
        r.append(b.as_str());
        r.append("\n");
    }
    r.append("\n");
    let ghost all_links = links.deep_view();
    let mut i: usize = 0;
    let ghost head = r@;
    proof {
        assert(all_links.skip(0) =~= all_links);
    }
    while i < links.len()
        invariant
            i <= links@.len(),
            all_links == links.deep_view(),
            all_links.len() == links@.len(),
            forall|j: int| 0 <= j < links@.len() ==> all_links[j] == links@[j]@,
            r@ == head + spec_link_block(all_links.take(i as int)),
        decreases links@.len() - i,
    {
        r.append(links[i].as_str());
        r.append("\n");
        proof {
            reveal_strlit("\n");
            assert("\n"@ =~= seq!['\n']);
            lemma_link_block_snoc(all_links.take(i as int), all_links[i as int]);
            assert(all_links.take(i as int).push(all_links[i as int]) =~= all_links.take(
                i as int + 1,
            ));
        }
        i += 1;
    }
    proof {
        assert(all_links.take(links@.len() as int) =~= all_links);
    }
    r.append("\n");
    if let Some(f) = footer {
        r.append(f.as_str());
        r.append("\n");
    }
    proof {
        reveal_strlit("\n");
        assert("\n"@ =~= seq!['\n']);
        assert(r@ =~= spec_compose(
            match body {
                Some(b) => Some(b@),
                None => None,
            },
            all_links,
            match footer {
                Some(f) => Some(f@),
                None => None,
            },
        ));
    }
    r
}

/// Appending one more link extends the block at its end.
proof fn lemma_link_block_snoc(links: Seq<Seq<char>>, l: Seq<char>)
    ensures
        spec_link_block(links.push(l)) == spec_link_block(links) + l + seq!['\n'],
    decreases links.len(),
{
    let whole = links.push(l);
    if links.len() == 0 {
        assert(whole.skip(1) =~= Seq::<Seq<char>>::empty());
        assert(spec_link_block(Seq::<Seq<char>>::empty()) == Seq::<char>::empty());
        assert(whole[0] == l);
        assert(spec_link_block(whole) == l + seq!['\n'] + Seq::<char>::empty());
        assert(spec_link_block(whole) =~= spec_link_block(links) + l + seq!['\n']);
    } else {
        lemma_link_block_snoc(links.skip(1), l);
        assert(whole.skip(1) =~= links.skip(1).push(l));
        assert(whole[0] == links[0]);
        assert(spec_link_block(whole) == links[0] + seq!['\n'] + spec_link_block(
            links.skip(1).push(l),
        ));
        assert(spec_link_block(whole) =~= spec_link_block(links) + l + seq!['\n']);
    }
}

} // verus!
