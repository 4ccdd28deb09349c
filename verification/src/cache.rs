//! The change-filtered publish cache: remembers the last payload published
//! on each topic so that unchanged values cause no bus traffic.

use vstd::prelude::*;
use vstd::string::StringExecFns;

verus! {

/// Why a publish request was rejected before reaching the bus.
#[derive(Clone, Copy, PartialEq, Eq, Structural, Debug)]
pub enum PublishError {
    /// The topic or the payload is empty.
    EmptyInput,
    /// The quality-of-service level is outside 0, 1, 2.
    InvalidQoS,
}

/// What a valid publish request should do.
#[derive(Clone, Copy, PartialEq, Eq, Structural, Debug)]
pub enum PublishDecision {
    /// The value differs from the last one published on the topic (or the
    /// topic is new): publish it, and record it afterwards on success.
    Publish,
    /// The value equals the last one published on the topic: do nothing.
    Unchanged,
}

/// The last payload published on each topic. The cache records a value only
/// after a publish succeeded, so a failed publish leaves the old entry in
/// place and the same value is retried on its next occurrence. Entries
/// never expire; the journal of successful publishes is kept whole, and the
/// view is the last recorded value per topic.
pub struct PublishCache {
    journal: Vec<(String, String)>,
}

/// The map that a journal of (topic, payload) records denotes: the last
/// record per topic wins.
pub open spec fn journal_map(s: Seq<(String, String)>) -> Map<Seq<char>, Seq<char>>
    decreases s.len(),
{
    if s.len() == 0 {
        Map::<Seq<char>, Seq<char>>::empty()
    } else {
        journal_map(s.drop_last()).insert(s.last().0@, s.last().1@)
    }
}

impl View for PublishCache {
    type V = Map<Seq<char>, Seq<char>>;

    closed spec fn view(&self) -> Map<Seq<char>, Seq<char>> {
        journal_map(self.journal@)
    }
}

/// The decision on a publish request against the cache `m`: empty topics
/// and payloads and out-of-range QoS levels are rejected; a payload equal
/// to the topic's recorded one is `Unchanged`; everything else is
/// `Publish`.
pub open spec fn spec_check(
    m: Map<Seq<char>, Seq<char>>,
    topic: Seq<char>,
    payload: Seq<char>,
    qos: int,
) -> Result<PublishDecision, PublishError> {
    if topic.len() == 0 || payload.len() == 0 {
        Err(PublishError::EmptyInput)
    } else if qos < 0 || qos > 2 {
        Err(PublishError::InvalidQoS)
    } else if m.contains_key(topic) && m[topic] == payload {
        Ok(PublishDecision::Unchanged)
    } else {
        Ok(PublishDecision::Publish)
    }
}

/// Records after index `i` never touch `topic`, so the map the journal
/// denotes agrees at `topic` with the map its first `i` records denote.
proof fn lemma_journal_skip(s: Seq<(String, String)>, i: int, topic: Seq<char>)
    requires
        0 <= i <= s.len(),
        forall|k: int| i <= k < s.len() ==> (#[trigger] s[k].0)@ != topic,
    ensures
        journal_map(s).contains_key(topic) == journal_map(s.subrange(0, i)).contains_key(topic),
        journal_map(s).contains_key(topic) ==> journal_map(s)[topic] == journal_map(
            s.subrange(0, i),
        )[topic],
    decreases s.len() - i,
{
    if i < s.len() {
        assert(s.subrange(0, s.len() as int) =~= s);
        lemma_journal_skip(s.subrange(0, s.len() - 1), i, topic);
        assert(s.subrange(0, s.len() - 1) =~= s.drop_last());
        assert(s.subrange(0, s.len() - 1).subrange(0, i) =~= s.subrange(0, i));
        assert(s.last().0@ != topic);
    } else {
        assert(s.subrange(0, i) =~= s);
    }
}

impl PublishCache {
    /// A cache with nothing recorded.
    pub fn new() -> (r: Self)
        ensures
            r@ == Map::<Seq<char>, Seq<char>>::empty(),
    {
        PublishCache { journal: Vec::new() }
    }

    /// Decides what a publish request should do; the cache is not changed.
    pub fn check(&self, topic: &str, payload: &str, qos: i32) -> (r: Result<
        PublishDecision,
        PublishError,
    >)
        ensures
            r == spec_check(self@, topic@, payload@, qos as int),
    {
        if topic.is_empty() || payload.is_empty() {
            return Err(PublishError::EmptyInput);
        }
        if qos < 0 || qos > 2 {
            return Err(PublishError::InvalidQoS);
        }
        let topic_string = String::from_str(topic);
        let n: usize = self.journal.len();
        let mut i: usize = n;
        while i > 0
            invariant
                i <= n,
                n == self.journal@.len(),
                forall|k: int| i <= k < n ==> (#[trigger] self.journal@[k].0)@ != topic@,
                topic_string@ == topic@,
                topic@.len() > 0,
                payload@.len() > 0,
                0 <= qos <= 2,
            decreases i,
        {
            i = i - 1;
            if self.journal[i].0 == topic_string {
                proof {
                    lemma_journal_skip(self.journal@, i + 1, topic@);
                    assert(self.journal@.subrange(0, i + 1).last() == self.journal@[i as int]);
                    assert(self.journal@.subrange(0, i + 1).drop_last() =~= self.journal@.subrange(
                        0,
                        i as int,
                    ));
                }
                let payload_string = String::from_str(payload);
                if self.journal[i].1 == payload_string {
                    return Ok(PublishDecision::Unchanged);
                } else {
                    return Ok(PublishDecision::Publish);
                }
            }
        }
        proof {
            lemma_journal_skip(self.journal@, 0, topic@);
            assert(self.journal@.subrange(0, 0) =~= Seq::<(String, String)>::empty());
        }
        Ok(PublishDecision::Publish)
    }

    /// Records a successful publish of `payload` on `topic`.
    pub fn record(&mut self, topic: &str, payload: &str)
        ensures
            final(self)@ == old(self)@.insert(topic@, payload@),
    {
        self.journal.push((String::from_str(topic), String::from_str(payload)));
        proof {
            assert(self.journal@.drop_last() =~= old(self).journal@);
        }
    }
}

/// The change filter never lets the same value out twice in a row: once a
/// publish of `payload` on `topic` is recorded, an identical request is
/// `Unchanged` (no bus traffic), while a differing valid payload — and any
/// valid payload on a topic whose recorded value differs or is absent — is
/// `Publish`.
pub proof fn lemma_change_filter(
    m: Map<Seq<char>, Seq<char>>,
    topic: Seq<char>,
    payload: Seq<char>,
    other: Seq<char>,
    qos: int,
)
    requires
        topic.len() > 0,
        payload.len() > 0,
        other.len() > 0,
        0 <= qos <= 2,
    ensures
        spec_check(m.insert(topic, payload), topic, payload, qos) == Ok::<
            PublishDecision,
            PublishError,
        >(PublishDecision::Unchanged),
        other != payload ==> spec_check(m.insert(topic, payload), topic, other, qos) == Ok::<
            PublishDecision,
            PublishError,
        >(PublishDecision::Publish),
        !m.contains_key(topic) || m[topic] != payload ==> spec_check(m, topic, payload, qos)
            == Ok::<PublishDecision, PublishError>(PublishDecision::Publish),
{
}

} // verus!
