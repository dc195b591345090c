//! The per-message pipeline: classify the text, extract fragments,
//! transform the body, pick the target file and lay out the entry.
//!
//! The surrounding program hands in everything the decision needs — the
//! message, the clock, the journal files on disk — and takes back the
//! resolved file name and the exact bytes to append.  It performs the
//! append itself and reports the name to the sender.

use vstd::prelude::*;

use crate::entities::{
    extract, spec_attribution, spec_body_view, spec_links, spec_topic, IncomingMessage,
};
use crate::session::{resolve, spec_resolve, FileMeta, NamingPolicy};
use crate::strutil::{first_at, spec_trim, trim};
use crate::time::StampTime;
use crate::transform::{spec_transform_body, transform_body};
use crate::writer::{compose_entry, spec_compose};

verus! {

/// What a message text asks for: a journal entry, a search, a usage hint
/// for a bare search command, or an unknown command.
pub enum Action {
    Journal,
    Search { query: String },
    SearchUsage,
    Unknown { command: String },
}

/// Decide what a message text asks for.  A text not starting with `/` is
/// journalled; `/s <query>` searches for the query (trimmed; the part
/// after the first space); a bare `/s` asks for usage; any other `/...`
/// word is an unknown command.
pub fn classify(text: &str) -> (r: Action)
    ensures
        ({
            let s = text@;
            let k = first_at(s, ' ') as int;
            if s.len() == 0 || s[0] != '/' {
                r is Journal
            } else if s.take(k) == "/s"@ {
                if k < s.len() {
                    r matches Action::Search { query } && query@ == spec_trim(s.skip(k + 1))
                } else {
                    r is SearchUsage
                }
            } else {
                r matches Action::Unknown { command } && command@ == s.take(k)
            }
        }),
{
    let n = text.unicode_len();
    proof {
        reveal_strlit("/s");
        crate::strutil::lemma_first_at(text@, ' ');
    }
    if n == 0 || text.get_char(0) != '/' {
        return Action::Journal;
    }
    let k: usize = match crate::strutil::find_char(text, ' ', 0) {
        Some(k) => k,
        None => n,
    };
    let ghost s = text@;
    let is_search = k == 2 && text.get_char(1) == 's';
    proof {
        if is_search {
            assert(s.take(2) =~= "/s"@);
        } else {
            if s.take(k as int) == "/s"@ {
                assert(s.take(k as int).len() == 2);
                assert(s.take(2)[1] == s[1]);
                assert("/s"@[1] == 's');
            }
        }
    }
    if is_search {
        if k < n {
            let rest = text.substring_char(k + 1, n);
            proof {
                assert(rest@ =~= s.skip(k + 1));
            }
            let query = trim(rest);
            Action::Search { query }
        } else {
            Action::SearchUsage
        }
    } else {
        let command = text.substring_char(0, k).to_owned();
        proof {
            assert(command@ =~= s.take(k as int));
        }
        Action::Unknown { command }
    }
}

/// The file name and entry text for one message.
pub struct MessageOutcome {
    pub filename: String,
    pub entry: String,
}

/// The body as it is written: the checkbox rewrite of the incoming body,
/// absent when the message has none.
pub open spec fn spec_out_body(m: IncomingMessage) -> Option<Seq<char>> {
    match m.body {
        Some(b) => Some(spec_transform_body(b@)),
        None => None,
    }
}

/// The entry's footer line: the forward attribution when the message was
/// forwarded, else the acknowledgment marker the caller chose to record,
/// else none.
pub open spec fn spec_footer(m: IncomingMessage, ack: Option<Seq<char>>) -> Option<Seq<char>> {
    match m.forward {
        Some(f) => Some(spec_attribution(f)),
        None => ack,
    }
}

/// Process one journal message: extract its annotations, rewrite its body,
/// pick its target file and lay out its entry.
///
/// The caller supplies the clock (`now` in epoch seconds and its
/// broken-down form), the recency window, the journal files on disk, and
/// an optional acknowledgment marker to record as a footer.
pub fn process_message(
    msg: &IncomingMessage,
    now: u64,
    window: u64,
    stamp: &StampTime,
    policy: NamingPolicy,
    files: &Vec<FileMeta>,
    ack_footer: Option<&String>,
) -> (r: MessageOutcome)
    requires
        stamp.wf(),
    ensures
        r.filename@ == spec_resolve(
            now,
            window,
            files@,
            spec_topic(spec_body_view(*msg), msg.entities@),
            *stamp,
            policy,
        ),
        r.entry@ == spec_compose(
            spec_out_body(*msg),
            spec_links(spec_body_view(*msg), msg.entities@),
            spec_footer(
                *msg,
                match ack_footer {
                    Some(a) => Some(a@),
                    None => None,
                },
            ),
        ),
{
    let ex = extract(msg);
    let tbody: Option<String> = match &ex.body {
        Some(b) => Some(transform_body(b.as_str())),
        None => None,
    };
    let filename = resolve(now, window, files, ex.topic.as_ref(), stamp, policy);
    let footer: Option<&String> = match &ex.attribution {
        Some(a) => Some(a),
        None => ack_footer,
    };
    let entry = compose_entry(tbody.as_ref(), &ex.links, footer);
    MessageOutcome { filename, entry }
}

/// A message carrying a well-formed hashtag entity is routed to the
/// topic-keyed name, regardless of which files exist and how recently
/// they were written.
pub proof fn lemma_hashtag_message_is_topic_keyed(
    m: IncomingMessage,
    now: u64,
    window: u64,
    files: Seq<FileMeta>,
    stamp: StampTime,
    policy: NamingPolicy,
    i: int,
)
    requires
        0 <= i < m.entities@.len(),
        crate::entities::spec_topic_of(spec_body_view(m), m.entities@[i]) is Some,
    ensures
        ({
            let topic = spec_topic(spec_body_view(m), m.entities@);
            topic is Some && spec_resolve(now, window, files, topic, stamp, policy)
                == crate::session::spec_key(stamp, policy) + seq!['-'] + topic.unwrap()
                + crate::session::md_suffix()
        }),
{
    crate::entities::lemma_topic_present(spec_body_view(m), m.entities@, i);
}

/// A message with no well-formed hashtag entity is routed by recency: it
/// is appended to the latest-written session file inside the window when
/// one exists, and starts a fresh time-keyed file when none does.
pub proof fn lemma_plain_message_routes_by_recency(
    m: IncomingMessage,
    now: u64,
    window: u64,
    files: Seq<FileMeta>,
    stamp: StampTime,
    policy: NamingPolicy,
)
    requires
        forall|i: int|
            0 <= i < m.entities@.len() ==> crate::entities::spec_topic_of(
                spec_body_view(m),
                m.entities@[i],
            ) is None,
    ensures
        spec_topic(spec_body_view(m), m.entities@) is None,
        (exists|w: int|
            0 <= w < files.len() && crate::session::eligible(files[w], now, window)) ==> exists|
            j: int,
        |
            0 <= j < files.len() && crate::session::eligible(files[j], now, window)
                && spec_resolve(now, window, files, None, stamp, policy) == files[j].name@ && (
            forall|k: int|
                0 <= k < files.len() && crate::session::eligible(files[k], now, window)
                    ==> files[k].mtime <= files[j].mtime),
        (forall|k: int| 0 <= k < files.len() ==> !crate::session::eligible(files[k], now, window))
            ==> spec_resolve(now, window, files, None, stamp, policy) == crate::session::spec_key(
            stamp,
            policy,
        ) + crate::session::tg_suffix(),
{
    crate::entities::lemma_topic_absent(spec_body_view(m), m.entities@);
    crate::session::lemma_best_eligible(files, now, window);
}

} // verus!
