use crate::edict::{spec_edict_from_integers, Edict};
use crate::fields::{fields_push, Fields};
use crate::flaw::Flaw;
use crate::rune_id::{spec_next, RuneId};
use crate::tag::Tag;
use vstd::prelude::*;

verus! {

/// A runestone payload split into its edicts and its tagged fields.
pub struct Message {
    pub flaw: Option<Flaw>,
    pub edicts: Vec<Edict>,
    pub fields: Fields,
}

/// The edicts that the integers `rest` encode, each rune id given as an
/// offset from the previous one starting at `id`, and the flaw that stopped
/// the reading, if any. Reading stops at the first edict that cannot be
/// built.
pub open spec fn spec_edicts(output_len: u32, id: RuneId, rest: Seq<u128>) -> (Seq<Edict>, Option<Flaw>)
    decreases rest.len(),
{
    if rest.len() == 0 {
        (Seq::empty(), None)
    } else if rest.len() < 4 {
        (Seq::empty(), Some(Flaw::TrailingIntegers))
    } else {
        match spec_next(id, rest[0] as int, rest[1] as int) {
            None => (Seq::empty(), Some(Flaw::EdictRuneId)),
            Some(next) => match spec_edict_from_integers(output_len, next, rest[2], rest[3]) {
                None => (Seq::empty(), Some(Flaw::EdictOutput)),
                Some(edict) => {
                    let (tail, flaw) = spec_edicts(output_len, next, rest.skip(4));
                    (seq![edict] + tail, flaw)
                },
            },
        }
    }
}

/// Every complete group of four integers up to the first that fails gives
/// one edict, in order, with the group's amount and output: without a flaw
/// the groups use up all the integers, with one the edicts stop before the
/// end.
pub proof fn lemma_edicts_are_groups(output_len: u32, id: RuneId, rest: Seq<u128>)
    ensures
        ({
            let (edicts, flaw) = spec_edicts(output_len, id, rest);
            &&& flaw is None ==> rest.len() == 4 * edicts.len()
            &&& flaw is Some ==> 4 * edicts.len() < rest.len()
            &&& forall|i: int| 0 <= i < edicts.len() ==> #[trigger] edicts[i].amount == rest[4 * i + 2] && edicts[i].output == rest[4 * i + 3]
        }),
    decreases rest.len(),
{
    if rest.len() >= 4 {
        if let Some(next) = spec_next(id, rest[0] as int, rest[1] as int) {
            if let Some(edict) = spec_edict_from_integers(output_len, next, rest[2], rest[3]) {
                let tail = rest.skip(4);
                lemma_edicts_are_groups(output_len, next, tail);
                let (es, f) = spec_edicts(output_len, next, tail);
                let all = seq![edict] + es;
                assert forall|i: int| 0 <= i < all.len() implies #[trigger] all[i].amount == rest[4 * i + 2] && all[i].output == rest[4 * i + 3] by {
                    if i > 0 {
                        assert(all[i] == es[i - 1]);
                        assert(tail[4 * (i - 1) + 2] == rest[4 * i + 2]);
                        assert(tail[4 * (i - 1) + 3] == rest[4 * i + 3]);
                    }
                }
            }
        }
    }
}

/// The flaws that reading a message can find: a truncated field, or an
/// edict that cannot be read.
pub open spec fn is_message_flaw(f: Flaw) -> bool {
    f == Flaw::TruncatedField || f == Flaw::TrailingIntegers || f == Flaw::EdictRuneId || f == Flaw::EdictOutput
}

proof fn lemma_edicts_flaw(output_len: u32, id: RuneId, rest: Seq<u128>)
    ensures
        spec_edicts(output_len, id, rest).1 matches Some(f) ==> is_message_flaw(f),
    decreases rest.len(),
{
    if rest.len() >= 4 {
        if let Some(next) = spec_next(id, rest[0] as int, rest[1] as int) {
            lemma_edicts_flaw(output_len, next, rest.skip(4));
        }
    }
}

proof fn lemma_message_from_flaw(output_len: u32, payload: Seq<u128>, i: nat, fields: Map<u128, Seq<u128>>)
    ensures
        spec_message_from(output_len, payload, i, fields).0 matches Some(f) ==> is_message_flaw(f),
    decreases payload.len() - i,
{
    if i < payload.len() {
        if payload[i as int] == Tag::Body.spec_value() {
            lemma_edicts_flaw(output_len, RuneId { block: 0, tx: 0 }, payload.skip(i + 1 as int));
        } else if i + 1 < payload.len() {
            lemma_message_from_flaw(output_len, payload, i + 2, fields_push(fields, payload[i as int], payload[i + 1 as int]));
        }
    }
}

/// Reading a message finds no flaw but a truncated field or an edict that
/// cannot be read.
pub proof fn lemma_message_flaw(output_len: u32, payload: Seq<u128>)
    ensures
        spec_message(output_len, payload).0 matches Some(f) ==> is_message_flaw(f),
{
    lemma_message_from_flaw(output_len, payload, 0, Map::empty());
}

/// The message that the integers of `payload` from index `i` on make, the
/// pairs before `i` having given `fields`: tag and value pairs until the
/// body tag, after which come the edicts.
pub open spec fn spec_message_from(output_len: u32, payload: Seq<u128>, i: nat, fields: Map<u128, Seq<u128>>) -> (Option<Flaw>, Seq<Edict>, Map<u128, Seq<u128>>)
    decreases payload.len() - i,
{
    if i >= payload.len() {
        (None, Seq::empty(), fields)
    } else if payload[i as int] == Tag::Body.spec_value() {
        let (edicts, flaw) = spec_edicts(output_len, RuneId { block: 0, tx: 0 }, payload.skip(i + 1 as int));
        (flaw, edicts, fields)
    } else if i + 1 >= payload.len() {
        (Some(Flaw::TruncatedField), Seq::empty(), fields)
    } else {
        spec_message_from(output_len, payload, i + 2, fields_push(fields, payload[i as int], payload[i + 1 as int]))
    }
}

/// The message of a whole payload.
pub open spec fn spec_message(output_len: u32, payload: Seq<u128>) -> (Option<Flaw>, Seq<Edict>, Map<u128, Seq<u128>>) {
    spec_message_from(output_len, payload, 0, Map::empty())
}

/// Reads the edicts from index `start` of `payload` on.
fn edicts_from(output_len: u32, payload: &[u128], start: usize) -> (r: (Vec<Edict>, Option<Flaw>))
    requires
        start <= payload.len(),
    ensures
        (r.0@, r.1) == spec_edicts(output_len, RuneId { block: 0, tx: 0 }, payload@.skip(start as int)),
{
    let mut edicts: Vec<Edict> = Vec::new();
    let mut id = RuneId { block: 0, tx: 0 };
    let mut j = start;
    while j < payload.len()
        invariant
            start <= j <= payload.len(),
            spec_edicts(output_len, RuneId { block: 0, tx: 0 }, payload@.skip(start as int)) == (
                edicts@ + spec_edicts(output_len, id, payload@.skip(j as int)).0,
                spec_edicts(output_len, id, payload@.skip(j as int)).1,
            ),
        decreases payload.len() - j,
    {
        let ghost rest = payload@.skip(j as int);
        if payload.len() - j < 4 {
            assert(edicts@ + Seq::<Edict>::empty() =~= edicts@);
            return (edicts, Some(Flaw::TrailingIntegers));
        }
        match id.next(payload[j], payload[j + 1]) {
            None => {
                assert(edicts@ + Seq::<Edict>::empty() =~= edicts@);
                return (edicts, Some(Flaw::EdictRuneId));
            },
            Some(next) => match Edict::from_integers(output_len, next, payload[j + 2], payload[j + 3]) {
                None => {
                    assert(edicts@ + Seq::<Edict>::empty() =~= edicts@);
                    return (edicts, Some(Flaw::EdictOutput));
                },
                Some(edict) => {
                    let ghost old_edicts = edicts@;
                    assert(rest.skip(4) =~= payload@.skip(j + 4));
                    id = next;
                    edicts.push(edict);
                    j = j + 4;
                    assert(old_edicts + (seq![edict] + spec_edicts(output_len, id, payload@.skip(j as int)).0)
                        =~= edicts@ + spec_edicts(output_len, id, payload@.skip(j as int)).0);
                },
            },
        }
    }
    assert(payload@.skip(j as int).len() == 0);
    assert(edicts@ + Seq::<Edict>::empty() =~= edicts@);
    (edicts, None)
}

impl Message {
    /// Splits the integers of a payload into tagged fields and edicts.
    pub fn from_integers(output_len: u32, payload: &[u128]) -> (r: Message)
        ensures
            (r.flaw, r.edicts@, r.fields@) == spec_message(output_len, payload@),
    {
        let mut fields = Fields::new();
        let mut i: usize = 0;
        while i < payload.len()
            invariant
                i <= payload.len(),
                spec_message(output_len, payload@) == spec_message_from(output_len, payload@, i as nat, fields@),
            decreases payload.len() - i,
        {
            let tag = payload[i];
            if tag == Tag::Body.value() {
                let (edicts, flaw) = edicts_from(output_len, payload, i + 1);
                return Message { flaw, edicts, fields };
            }
            if i + 1 >= payload.len() {
                return Message { flaw: Some(Flaw::TruncatedField), edicts: Vec::new(), fields };
            }
            fields.push(tag, payload[i + 1]);
            i = i + 2;
        }
        Message { flaw: None, edicts: Vec::new(), fields }
    }
}

} // verus!
