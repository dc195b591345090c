//! Session resolution: which file a message lands in.
//!
//! A session is re-derived on every message from the journal files already
//! on disk (name and last-modification time, handed in by the caller).  A
//! hashtag routes to a topic-named file regardless of recency; otherwise a
//! journal file written within the recency window is reused — the one with
//! the latest modification time, first in scan order on a tie — and when
//! none is, a fresh time-keyed name is built.

use vstd::prelude::*;

use crate::time::{
    day_key, is_digit_char, spec_day_key, spec_timestamp_key, timestamp_key, StampTime,
};

verus! {

/// How long after a file's last write new messages still append to it,
/// in seconds.
pub const DEFAULT_RECENCY_WINDOW: u64 = 1800;

/// A journal file candidate: its name and its last-modification time in
/// seconds since the epoch.
#[derive(Clone)]
pub struct FileMeta {
    pub name: String,
    pub mtime: u64,
}

/// Whether fresh file names carry the full timestamp or only the day.
#[derive(Clone, Copy, PartialEq, Eq, Structural)]
pub enum NamingPolicy {
    Timestamp,
    Day,
}

/// A name of the shape `<digits>-tg.md` with 14 or 8 digits: a
/// timestamp-keyed or day-keyed session file.
pub open spec fn is_journal_name(s: Seq<char>) -> bool {
    (s.len() == 20 || s.len() == 14) && (forall|i: int|
        0 <= i < s.len() - 6 ==> is_digit_char(s[i])) && s.skip(s.len() - 6) == tg_suffix()
}

/// The fixed suffix of a session file name.
pub open spec fn tg_suffix() -> Seq<char> {
    seq!['-', 't', 'g', '.', 'm', 'd']
}

/// A file is eligible for append-reuse when it is a session file written
/// within the window (a modification time in the future counts as recent).
pub open spec fn eligible(f: FileMeta, now: u64, window: u64) -> bool {
    is_journal_name(f.name@) && f.mtime + window > now
}

/// The index of the file the resolver reuses: among the eligible ones, the
/// one with the latest modification time, the earliest such on a tie.
pub open spec fn best_eligible(files: Seq<FileMeta>, now: u64, window: u64) -> Option<int>
    decreases files.len(),
{
    if files.len() == 0 {
        None
    } else {
        let i = files.len() - 1;
        let rest = best_eligible(files.drop_last(), now, window);
        if !eligible(files[i], now, window) {
            rest
        } else {
            match rest {
                None => Some(i),
                Some(j) => if files[i].mtime > files[j].mtime {
                    Some(i)
                } else {
                    Some(j)
                },
            }
        }
    }
}

/// What `best_eligible` returns: `None` exactly when no file is eligible,
/// otherwise an eligible index whose modification time no eligible file
/// exceeds, and the earliest index with that time.
pub proof fn lemma_best_eligible(files: Seq<FileMeta>, now: u64, window: u64)
    ensures
        best_eligible(files, now, window) is None <==> (forall|k: int|
            0 <= k < files.len() ==> !eligible(files[k], now, window)),
        match best_eligible(files, now, window) {
            Some(j) => 0 <= j < files.len() && eligible(files[j], now, window) && (forall|k: int|
                0 <= k < files.len() && eligible(files[k], now, window) ==> files[k].mtime
                    <= files[j].mtime) && (forall|k: int|
                0 <= k < j && eligible(files[k], now, window) ==> files[k].mtime
                    < files[j].mtime),
            None => true,
        },
    decreases files.len(),
{
    if files.len() > 0 {
        let i = files.len() - 1;
        let prefix = files.drop_last();
        lemma_best_eligible(prefix, now, window);
        assert(forall|k: int| 0 <= k < i ==> files[k] == prefix[k]);
    }
}

/// The name of the file a message is routed to.
pub open spec fn spec_resolve(
    now: u64,
    window: u64,
    files: Seq<FileMeta>,
    topic: Option<Seq<char>>,
    stamp: StampTime,
    policy: NamingPolicy,
) -> Seq<char> {
    match topic {
        Some(t) => spec_key(stamp, policy) + seq!['-'] + t + md_suffix(),
        None => match best_eligible(files, now, window) {
            Some(j) => files[j].name@,
            None => spec_key(stamp, policy) + tg_suffix(),
        },
    }
}

/// The time-derived key under the active naming policy.
pub open spec fn spec_key(stamp: StampTime, policy: NamingPolicy) -> Seq<char> {
    match policy {
        NamingPolicy::Timestamp => spec_timestamp_key(stamp),
        NamingPolicy::Day => spec_day_key(stamp),
    }
}

pub open spec fn md_suffix() -> Seq<char> {
    seq!['.', 'm', 'd']
}

/// Is `name` a session file name, `<digits>-tg.md` with 8 or 14 digits?
pub fn matches_journal_name(name: &str) -> (r: bool)
    ensures
        r == is_journal_name(name@),
{
    let n = name.unicode_len();
    if !(n == 20 || n == 14) {
        return false;
    }
    let mut i: usize = 0;
    while i < n - 6
        invariant
            i <= n - 6,
            6 <= n == name@.len(),
            forall|j: int| 0 <= j < i ==> is_digit_char(name@[j]),
        decreases n - i,
    {
        if !crate::time::is_digit(name.get_char(i)) {
            return false;
        }
        i += 1;
    }
    let suffix = name.substring_char(n - 6, n);
    proof {
        reveal_strlit("-tg.md");
        assert("-tg.md"@ =~= tg_suffix());
    }
    let r = crate::strutil::str_starts_with(suffix, "-tg.md");
    proof {
        if r {
            assert(suffix@.take(6) =~= suffix@);
            assert(name@.subrange(n - 6, n as int) =~= name@.skip(n - 6));
        } else {
            assert(name@.skip(n - 6) == name@.subrange(n - 6, n as int));
            if name@.skip(n - 6) == tg_suffix() {
                assert(suffix@.take(6) =~= suffix@);
            }
        }
    }
    r
}

/// Build the topic-keyed name `<key>-<topic>.md`.
fn topic_name(stamp: &StampTime, policy: NamingPolicy, topic: &str) -> (r: String)
    requires
        stamp.wf(),
    ensures
        r@ == spec_key(*stamp, policy) + seq!['-'] + topic@ + md_suffix(),
{
    let key = match policy {
        NamingPolicy::Timestamp => timestamp_key(stamp),
        NamingPolicy::Day => day_key(stamp),
    };
    let r = key.concat("-").concat(topic).concat(".md");
    proof {
        reveal_strlit("-");
        reveal_strlit(".md");
        assert(r@ =~= spec_key(*stamp, policy) + seq!['-'] + topic@ + md_suffix());
    }
    r
}

/// Build the fresh session file name `<key>-tg.md`.
fn fresh_name(stamp: &StampTime, policy: NamingPolicy) -> (r: String)
    requires
        stamp.wf(),
    ensures
        r@ == spec_key(*stamp, policy) + tg_suffix(),
{
    let key = match policy {
        NamingPolicy::Timestamp => timestamp_key(stamp),
        NamingPolicy::Day => day_key(stamp),
    };
    let r = key.concat("-tg.md");
    proof {
        reveal_strlit("-tg.md");
        assert(r@ =~= spec_key(*stamp, policy) + tg_suffix());
    }
    r
}

/// Select the target file for one message.
///
/// A hashtag topic forces a topic-keyed name; otherwise the most recently
/// modified session file inside the window is reused, and when none
/// qualifies a fresh time-keyed name is built.
pub fn resolve(
    now: u64,
    window: u64,
    files: &Vec<FileMeta>,
    topic: Option<&String>,
    stamp: &StampTime,
    policy: NamingPolicy,
) -> (r: String)
    requires
        stamp.wf(),
    ensures
        r@ == spec_resolve(
            now,
            window,
            files@,
            match topic {
                Some(t) => Some(t@),
                None => None,
            },
            *stamp,
            policy,
        ),
{
    if let Some(t) = topic {
        return topic_name(stamp, policy, t.as_str());
    }
    let mut best: Option<usize> = None;
    let mut i: usize = 0;
    proof {
        assert(files@.take(0) =~= Seq::<FileMeta>::empty());
    }
    while i < files.len()
        invariant
            i <= files@.len(),
            match best {
                Some(b) => b < i && best_eligible(files@.take(i as int), now, window) == Some(
                    b as int,
                ),
                None => best_eligible(files@.take(i as int), now, window) is None,
            },
        decreases files@.len() - i,
    {
        let f = &files[i];
        let is_recent = f.mtime > now || now - f.mtime < window;
        let elig = is_recent && matches_journal_name(f.name.as_str());
        proof {
            assert(elig == eligible(files@[i as int], now, window));
            assert(files@.take(i as int + 1).drop_last() =~= files@.take(i as int));
            assert(files@.take(i as int + 1)[i as int] == files@[i as int]);
        }
        if elig {
            match best {
                None => {
                    best = Some(i);
                },
                Some(b) => {
                    if f.mtime > files[b].mtime {
                        best = Some(i);
                    }
                },
            }
        }
        i += 1;
    }
    proof {
        assert(files@.take(files@.len() as int) =~= files@);
    }
    match best {
        Some(b) => files[b].name.clone(),
        None => fresh_name(stamp, policy),
    }
}

/// A message inside the recency window of some session file, with no
/// hashtag, is appended to an existing session file — the latest-written
/// eligible one — never to a fresh name.
pub proof fn lemma_recent_message_reuses_file(
    now: u64,
    window: u64,
    files: Seq<FileMeta>,
    stamp: StampTime,
    policy: NamingPolicy,
    w: int,
)
    requires
        0 <= w < files.len(),
        eligible(files[w], now, window),
    ensures
        exists|j: int|
            0 <= j < files.len() && eligible(files[j], now, window) && spec_resolve(
                now,
                window,
                files,
                None,
                stamp,
                policy,
            ) == files[j].name@ && (forall|k: int|
                0 <= k < files.len() && eligible(files[k], now, window) ==> files[k].mtime
                    <= files[j].mtime),
{
    lemma_best_eligible(files, now, window);
}

/// A message outside the recency window of every file, with no hashtag,
/// starts a fresh time-keyed file.
pub proof fn lemma_stale_message_starts_fresh_file(
    now: u64,
    window: u64,
    files: Seq<FileMeta>,
    stamp: StampTime,
    policy: NamingPolicy,
)
    requires
        forall|k: int| 0 <= k < files.len() ==> !(files[k].mtime + window > now),
    ensures
        spec_resolve(now, window, files, None, stamp, policy) == spec_key(stamp, policy)
            + tg_suffix(),
{
    lemma_best_eligible(files, now, window);
}

/// A fresh time-keyed name itself matches the journal name grammar, so the
/// file it creates is found by the recency scan of later messages.
pub proof fn lemma_fresh_name_is_journal_name(stamp: StampTime, policy: NamingPolicy)
    ensures
        is_journal_name(spec_key(stamp, policy) + tg_suffix()),
{
    crate::time::lemma_key_shape(stamp);
    let name = spec_key(stamp, policy) + tg_suffix();
    let digits = spec_key(stamp, policy).len() as int;
    assert(name.skip(digits) =~= tg_suffix());
    assert forall|i: int| 0 <= i < digits implies is_digit_char(name[i]) by {
        assert(name[i] == spec_key(stamp, policy)[i]);
    }
}

/// A message carrying a hashtag is routed to the topic-keyed name, whatever
/// files exist and however recent they are.
pub proof fn lemma_hashtag_routes_to_topic(
    now: u64,
    window: u64,
    files: Seq<FileMeta>,
    topic: Seq<char>,
    stamp: StampTime,
    policy: NamingPolicy,
)
    ensures
        spec_resolve(now, window, files, Some(topic), stamp, policy) == spec_key(stamp, policy)
            + seq!['-'] + topic + md_suffix(),
{
}

} // verus!
