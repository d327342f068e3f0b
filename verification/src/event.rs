//! Nostr events, as far as the harness reads them.
use vstd::prelude::*;
use vstd::string::*;

use crate::text;

verus! {

/// The parts of a nostr event that decisions rest on. Id and author are lower case hexadecimal.
pub struct EventRecord {
    pub id: String,
    pub pubkey: String,
    pub content: String,
    pub tags: Vec<Vec<String>>,
}

/// What an [`EventRecord`] says.
pub struct RecordView {
    pub id: Seq<char>,
    pub pubkey: Seq<char>,
    pub content: Seq<char>,
    pub tags: Seq<Seq<Seq<char>>>,
}

impl View for EventRecord {
    type V = RecordView;

    open spec fn view(&self) -> RecordView {
        RecordView {
            id: self.id@,
            pubkey: self.pubkey@,
            content: self.content@,
            tags: self.tags@.map_values(|t: Vec<String>| text::texts(t@)),
        }
    }
}

/// The event that `json` holds, by the nostr wire format; nothing where it holds none.
pub uninterp spec fn event_of(json: Seq<char>) -> Option<RecordView>;

/// `json` holds an event whose id is the hash of its contents and whose signature is its author's.
pub uninterp spec fn event_verifies(json: Seq<char>) -> bool;

/// Reads a `nostr::Event` with `serde_json::from_str`. Trusted: whether the text holds an event,
/// and its id, author, content and tags, are functions of the text alone, named by [`event_of`].
#[verifier::external_body]
pub(crate) fn parse_event(json: &str) -> (r: Option<EventRecord>)
    ensures
        (match r {
            Some(e) => Some(e@),
            None => None,
        }) == event_of(json@),
{
    match serde_json::from_str::<nostr::Event>(json) {
        Ok(e) => Some(EventRecord {
            id: e.id.to_hex(),
            pubkey: e.pubkey.to_hex(),
            content: e.content,
            tags: e.tags.to_vec().into_iter().map(|t| t.to_vec()).collect(),
        }),
        Err(_) => None,
    }
}

/// Calls `nostr::Event::verify` on the event that `json` holds. Trusted: the answer is a function
/// of the text alone, named by [`event_verifies`], and text that holds no event does not verify.
#[verifier::external_body]
pub(crate) fn verify_event(json: &str) -> (r: bool)
    ensures
        r == event_verifies(json@),
        r ==> event_of(json@) is Some,
{
    match serde_json::from_str::<nostr::Event>(json) {
        Ok(e) => e.verify().is_ok(),
        Err(_) => false,
    }
}

/// A tag that names `pubkey`: `["p", pubkey, ..]`.
pub open spec fn is_mention(tag: Seq<Seq<char>>, pubkey: Seq<char>) -> bool {
    tag.len() >= 2 && tag[0] == "p"@ && tag[1] == pubkey
}

/// Some tag names `pubkey`.
pub open spec fn mentions(event: RecordView, pubkey: Seq<char>) -> bool {
    exists|i: int| 0 <= i < event.tags.len() && is_mention(#[trigger] event.tags[i], pubkey)
}

impl EventRecord {
    /// Reads an event from its JSON text. The signature is not looked at.
    pub fn from_json(json: &str) -> (r: Option<EventRecord>)
        ensures
            (match r {
                Some(e) => Some(e@),
                None => None,
            }) == event_of(json@),
    {
        parse_event(json)
    }
}

/// Whether a `p` tag of the event names the agent.
pub fn event_mentions_agent(event: &EventRecord, agent_pubkey_hex: &str) -> (r: bool)
    ensures
        r == mentions(event@, agent_pubkey_hex@),
{
    let mut i: usize = 0;
    while i < event.tags.len()
        invariant
            i <= event.tags@.len(),
            forall|j: int|
                0 <= j < i ==> !is_mention(#[trigger] event@.tags[j], agent_pubkey_hex@),
        decreases event.tags@.len() - i,
    {
        let tag = &event.tags[i];
        assert(event@.tags[i as int] == text::texts(tag@));
        if tag.len() >= 2 && text::same_text(tag[0].as_str(), "p") && text::same_text(
            tag[1].as_str(),
            agent_pubkey_hex,
        ) {
            assert(is_mention(event@.tags[i as int], agent_pubkey_hex@));
            return true;
        }
        i = i + 1;
    }
    false
}

/// An event mentions a key exactly where some tag of it begins with `p` and that key.
pub proof fn mentions_are_p_tags(e: RecordView, pubkey: Seq<char>)
    ensures
        mentions(e, pubkey) <==> exists|i: int|
            0 <= i < e.tags.len() && (#[trigger] e.tags[i]).len() >= 2 && e.tags[i][0] == seq!['p']
                && e.tags[i][1] == pubkey,
{
    reveal_strlit("p");
    assert("p"@ =~= seq!['p']);
    if mentions(e, pubkey) {
        let i = choose|i: int|
            0 <= i < e.tags.len() && is_mention(#[trigger] e.tags[i], pubkey);
        assert(e.tags[i].len() >= 2 && e.tags[i][0] == seq!['p'] && e.tags[i][1] == pubkey);
    }
    if exists|i: int|
        0 <= i < e.tags.len() && (#[trigger] e.tags[i]).len() >= 2 && e.tags[i][0] == seq!['p']
            && e.tags[i][1] == pubkey {
        let i = choose|i: int|
            0 <= i < e.tags.len() && (#[trigger] e.tags[i]).len() >= 2 && e.tags[i][0]
                == seq!['p'] && e.tags[i][1] == pubkey;
        assert(is_mention(e.tags[i], pubkey));
    }
}

/// A record is seen by its four fields, tag by tag.
pub proof fn record_is_seen_whole(e: EventRecord, i: int)
    ensures
        e@.id == e.id@,
        e@.pubkey == e.pubkey@,
        e@.content == e.content@,
        e@.tags.len() == e.tags@.len(),
        0 <= i < e.tags@.len() ==> e@.tags[i] == text::texts(e.tags@[i]@),
{
}

} // verus!
