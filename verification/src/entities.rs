//! Messages and their structured annotations, and the extraction of those
//! annotations into canonical markdown fragments.
//!
//! An entity references a span of the body text by character offset and
//! length; a span reaching past the end of the body is malformed and the
//! entity is skipped.  Plain URL spans become `[](url)`, labeled link
//! spans become `[label](url)`, the first well-formed hashtag (its leading
//! `#` stripped, surrounding whitespace trimmed) names the topic, and
//! forward metadata becomes a `from: ...` attribution line.

use vstd::prelude::*;

use crate::strutil::{spec_trim, trim};

verus! {

/// A structured annotation over a span of the body text.
///
/// `offset` and `length` count characters of the body, not bytes or
/// encoding units; a transport layer that indexes differently converts
/// when it builds the message.
#[derive(Clone)]
pub enum Entity {
    PlainUrl { offset: usize, length: usize },
    LabeledLink { offset: usize, length: usize, url: String },
    Hashtag { offset: usize, length: usize },
}

/// Who a forwarded message originally came from, and when.
#[derive(Clone)]
pub struct ForwardInfo {
    pub name: String,
    pub timestamp: Option<i64>,
}

/// One message as the transport layer hands it over.
#[derive(Clone)]
pub struct IncomingMessage {
    pub body: Option<String>,
    pub entities: Vec<Entity>,
    pub forward: Option<ForwardInfo>,
    pub sender: String,
}

/// The canonical fragments extracted from one message.
pub struct Extracted {
    pub body: Option<String>,
    pub links: Vec<String>,
    pub topic: Option<String>,
    pub attribution: Option<String>,
}

/// The latest second the RFC 2822 format can carry (the last second of
/// year 9999).
pub const MAX_RFC2822_EPOCH: i64 = 253402300799;

/// The view of an optional string.
pub open spec fn view_opt(o: Option<String>) -> Option<Seq<char>> {
    match o {
        Some(s) => Some(s@),
        None => None,
    }
}

/// The body text an entity span resolves against: empty when the message
/// has none.
pub open spec fn spec_body_view(m: IncomingMessage) -> Seq<char> {
    match m.body {
        Some(b) => b@,
        None => Seq::empty(),
    }
}

/// A span lies inside the body.
pub open spec fn span_valid(body: Seq<char>, offset: int, length: int) -> bool {
    offset + length <= body.len()
}

pub open spec fn span_text(body: Seq<char>, offset: int, length: int) -> Seq<char> {
    body.subrange(offset, offset + length)
}

/// The markdown link an entity contributes, if any: a plain URL span
/// becomes `[](url)`, a labeled link span becomes `[label](url)`; hashtags
/// and malformed spans contribute none.
pub open spec fn spec_link_of(body: Seq<char>, e: Entity) -> Option<Seq<char>> {
    match e {
        Entity::PlainUrl { offset, length } => if span_valid(body, offset as int, length as int) {
            Some(
                seq!['[', ']', '('] + span_text(body, offset as int, length as int) + seq![')'],
            )
        } else {
            None
        },
        Entity::LabeledLink { offset, length, url } => if span_valid(
            body,
            offset as int,
            length as int,
        ) {
            Some(
                seq!['['] + span_text(body, offset as int, length as int) + seq![']', '('] + url@
                    + seq![')'],
            )
        } else {
            None
        },
        Entity::Hashtag { .. } => None,
    }
}

/// The link block fragments, in entity order, malformed spans skipped.
pub open spec fn spec_links(body: Seq<char>, es: Seq<Entity>) -> Seq<Seq<char>>
    decreases es.len(),
{
    if es.len() == 0 {
        Seq::empty()
    } else {
        (match spec_link_of(body, es[0]) {
            Some(l) => seq![l],
            None => Seq::empty(),
        }) + spec_links(body, es.skip(1))
    }
}

/// A hashtag's topic text: the leading `#` stripped, whitespace trimmed.
pub open spec fn spec_clean_topic(s: Seq<char>) -> Seq<char> {
    spec_trim(
        if s.len() > 0 && s[0] == '#' {
            s.skip(1)
        } else {
            s
        },
    )
}

/// The topic an entity contributes, if any.
pub open spec fn spec_topic_of(body: Seq<char>, e: Entity) -> Option<Seq<char>> {
    match e {
        Entity::Hashtag { offset, length } => if span_valid(body, offset as int, length as int) {
            Some(spec_clean_topic(span_text(body, offset as int, length as int)))
        } else {
            None
        },
        _ => None,
    }
}

/// The message's topic: the first well-formed hashtag's cleaned text.
pub open spec fn spec_topic(body: Seq<char>, es: Seq<Entity>) -> Option<Seq<char>>
    decreases es.len(),
{
    if es.len() == 0 {
        None
    } else {
        match spec_topic_of(body, es[0]) {
            Some(t) => Some(t),
            None => spec_topic(body, es.skip(1)),
        }
    }
}

/// `ts` can be carried by RFC 2822 (year 0 through 9999, here restricted
/// to the epoch onward).
pub open spec fn rfc2822_representable(ts: int) -> bool {
    0 <= ts <= MAX_RFC2822_EPOCH
}

/// What `chrono` renders a timestamp as, in RFC 2822 form; the result is a
/// function of the timestamp alone.
pub uninterp spec fn rfc2822_of(ts: int) -> Seq<char>;

/// Relies on `chrono::DateTime::<Utc>::from_timestamp` (which returns a
/// value for every timestamp in this range) and `DateTime::to_rfc2822`
/// (which renders any date of the years 0..=9999): the rendering depends
/// on the timestamp alone.
#[verifier::external_body]
fn format_rfc2822(ts: i64) -> (r: String)
    requires
        rfc2822_representable(ts as int),
    ensures
        r@ == rfc2822_of(ts as int),
{
    match chrono::DateTime::<chrono::Utc>::from_timestamp(ts, 0) {
        Some(dt) => dt.to_rfc2822(),
        None => String::new(),
    }
}

/// The timestamp part of an attribution line: the RFC 2822 rendering when
/// a representable timestamp is present, empty otherwise.
pub open spec fn spec_attribution_time(ts: Option<i64>) -> Seq<char> {
    match ts {
        Some(t) => if rfc2822_representable(t as int) {
            rfc2822_of(t as int)
        } else {
            Seq::empty()
        },
        None => Seq::empty(),
    }
}

/// The attribution line for a forwarded message.
pub open spec fn spec_attribution(f: ForwardInfo) -> Seq<char> {
    "from: "@ + f.name@ + " (at "@ + spec_attribution_time(f.timestamp) + ")"@
}

/// Appending one entity extends the link fragments at the end.
proof fn lemma_links_snoc(body: Seq<char>, es: Seq<Entity>, e: Entity)
    ensures
        spec_links(body, es.push(e)) == spec_links(body, es) + (match spec_link_of(body, e) {
            Some(l) => seq![l],
            None => Seq::<Seq<char>>::empty(),
        }),
    decreases es.len(),
{
    let whole = es.push(e);
    let tail = match spec_link_of(body, e) {
        Some(l) => seq![l],
        None => Seq::<Seq<char>>::empty(),
    };
    if es.len() == 0 {
        assert(whole.skip(1) =~= Seq::<Entity>::empty());
        assert(spec_links(body, Seq::<Entity>::empty()) == Seq::<Seq<char>>::empty());
        assert(whole[0] == e);
        assert(spec_links(body, whole) =~= spec_links(body, es) + tail);
    } else {
        lemma_links_snoc(body, es.skip(1), e);
        assert(whole.skip(1) =~= es.skip(1).push(e));
        assert(whole[0] == es[0]);
        assert(spec_links(body, whole) =~= spec_links(body, es) + tail);
    }
}

/// Appending one entity leaves an already-found topic in place, and
/// otherwise lets the new entity decide.
proof fn lemma_topic_snoc(body: Seq<char>, es: Seq<Entity>, e: Entity)
    ensures
        spec_topic(body, es.push(e)) == (match spec_topic(body, es) {
            Some(t) => Some(t),
            None => spec_topic_of(body, e),
        }),
    decreases es.len(),
{
    let whole = es.push(e);
    if es.len() == 0 {
        assert(whole.skip(1) =~= Seq::<Entity>::empty());
        assert(spec_topic(body, Seq::<Entity>::empty()) is None);
        assert(whole[0] == e);
    } else {
        lemma_topic_snoc(body, es.skip(1), e);
        assert(whole.skip(1) =~= es.skip(1).push(e));
        assert(whole[0] == es[0]);
    }
}

/// A message holding a well-formed hashtag entity has a topic.
pub proof fn lemma_topic_present(body: Seq<char>, es: Seq<Entity>, i: int)
    requires
        0 <= i < es.len(),
        spec_topic_of(body, es[i]) is Some,
    ensures
        spec_topic(body, es) is Some,
    decreases es.len(),
{
    if i > 0 {
        match spec_topic_of(body, es[0]) {
            Some(_) => {},
            None => {
                assert(es.skip(1)[i - 1] == es[i]);
                lemma_topic_present(body, es.skip(1), i - 1);
            },
        }
    }
}

/// A message with no well-formed hashtag entity has no topic.
pub proof fn lemma_topic_absent(body: Seq<char>, es: Seq<Entity>)
    requires
        forall|i: int| 0 <= i < es.len() ==> spec_topic_of(body, es[i]) is None,
    ensures
        spec_topic(body, es) is None,
    decreases es.len(),
{
    if es.len() > 0 {
        assert forall|j: int| 0 <= j < es.skip(1).len() implies spec_topic_of(
            body,
            es.skip(1)[j],
        ) is None by {
            assert(es.skip(1)[j] == es[j + 1]);
        }
        lemma_topic_absent(body, es.skip(1));
    }
}

/// Parse a message's annotations into canonical fragments: the body as it
/// came, the markdown links in entity order, the first hashtag's topic,
/// and the forward attribution line.
pub fn extract(msg: &IncomingMessage) -> (r: Extracted)
    ensures
        view_opt(r.body) == view_opt(msg.body),
        r.links.deep_view() == spec_links(spec_body_view(*msg), msg.entities@),
        view_opt(r.topic) == spec_topic(spec_body_view(*msg), msg.entities@),
        view_opt(r.attribution) == (match msg.forward {
            Some(f) => Some(spec_attribution(f)),
            None => None,
        }),
{
    let body_str: &str = match &msg.body {
        Some(b) => b.as_str(),
        None => "",
    };
    proof {
        reveal_strlit("");
        assert(""@ =~= Seq::<char>::empty());
        assert(body_str@ == spec_body_view(*msg));
    }
    let blen = body_str.unicode_len();
    let ghost bv = spec_body_view(*msg);
    let ghost es = msg.entities@;
    let mut links: Vec<String> = Vec::new();
    let mut topic: Option<String> = None;
    let mut i: usize = 0;
    proof {
        assert(es.take(0) =~= Seq::<Entity>::empty());
    }
    while i < msg.entities.len()
        invariant
            i <= es.len(),
            es == msg.entities@,
            bv == spec_body_view(*msg),
            blen == bv.len(),
            body_str@ == bv,
            links.deep_view() == spec_links(bv, es.take(i as int)),
            view_opt(topic) == spec_topic(bv, es.take(i as int)),
        decreases es.len() - i,
    {
        proof {
            assert(es.take(i as int).push(es[i as int]) =~= es.take(i as int + 1));
            lemma_links_snoc(bv, es.take(i as int), es[i as int]);
            lemma_topic_snoc(bv, es.take(i as int), es[i as int]);
        }
        match &msg.entities[i] {
            Entity::PlainUrl { offset, length } => {
                if *offset <= blen && *length <= blen - *offset {
                    let t = body_str.substring_char(*offset, *offset + *length);
                    let l = String::from_str("[](").concat(t).concat(")");
                    proof {
                        reveal_strlit("[](");
                        reveal_strlit(")");
                        assert(l@ =~= spec_link_of(bv, es[i as int]).unwrap());
                        assert(links.deep_view().push(l@) =~= spec_links(
                            bv,
                            es.take(i as int + 1),
                        ));
                    }
                    links.push(l);
                }
            },
            Entity::LabeledLink { offset, length, url } => {
                if *offset <= blen && *length <= blen - *offset {
                    let t = body_str.substring_char(*offset, *offset + *length);
                    let l = String::from_str("[").concat(t).concat("](").concat(
                        url.as_str(),
                    ).concat(")");
                    proof {
                        reveal_strlit("[");
                        reveal_strlit("](");
                        reveal_strlit(")");
                        assert(l@ =~= spec_link_of(bv, es[i as int]).unwrap());
                        assert(links.deep_view().push(l@) =~= spec_links(
                            bv,
                            es.take(i as int + 1),
                        ));
                    }
                    links.push(l);
                }
            },
            Entity::Hashtag { offset, length } => {
                if topic.is_none() && *offset <= blen && *length <= blen - *offset {
                    let t = body_str.substring_char(*offset, *offset + *length);
                    let stripped: &str = if t.unicode_len() > 0 && t.get_char(0) == '#' {
                        let s = t.substring_char(1, t.unicode_len());
                        proof {
                            assert(t@.subrange(1, t@.len() as int) =~= t@.skip(1));
                        }
                        s
                    } else {
                        t
                    };
                    let cleaned = trim(stripped);
                    proof {
                        assert(cleaned@ == spec_topic_of(bv, es[i as int]).unwrap());
                    }
                    topic = Some(cleaned);
                }
            },
        }
        i += 1;
    }
    proof {
        assert(es.take(es.len() as int) =~= es);
    }
    let attribution: Option<String> = match &msg.forward {
        Some(f) => {
            let ts_part: String = match f.timestamp {
                Some(t) => if 0 <= t && t <= MAX_RFC2822_EPOCH {
                    format_rfc2822(t)
                } else {
                    String::new()
                },
                None => String::new(),
            };
            let line = String::from_str("from: ").concat(f.name.as_str()).concat(
                " (at ",
            ).concat(ts_part.as_str()).concat(")");
            proof {
                assert(line@ =~= spec_attribution(msg.forward.unwrap()));
            }
            Some(line)
        },
        None => None,
    };
    let body_out: Option<String> = match &msg.body {
        Some(b) => Some(b.clone()),
        None => None,
    };
    Extracted { body: body_out, links, topic, attribution }
}

} // verus!
