use crate::types::{
    ContentPartModel, EventModel, InputItemModel, OrsContentPart, OrsEvent, OrsInputItem,
    OrsItemKind, OrsRole,
};
use vstd::prelude::*;

verus! {

// ---------------------------------------------------------------------------
// Output reconstruction for the conversation store: folds a captured event
// stream into the output items to persist.  An item-added event registers
// its id with its kind and empty text, keeping first-seen order; a text
// delta appends to the matching entry; other events are ignored.  Each entry
// is synthesized as an assistant message holding its accumulated text.
// ---------------------------------------------------------------------------

/// Spec model of one accumulator entry.
#[verifier::ext_equal]
pub struct AccEntry {
    pub item_id: Seq<char>,
    pub kind: OrsItemKind,
    pub text: Seq<char>,
}

/// The index of the first entry with this item id, if any.
pub open spec fn acc_find(acc: Seq<AccEntry>, id: Seq<char>) -> Option<int>
    decreases acc.len(),
{
    if acc.len() == 0 {
        None
    } else if acc.first().item_id == id {
        Some(0int)
    } else {
        match acc_find(acc.drop_first(), id) {
            Some(i) => Some(i + 1),
            None => None,
        }
    }
}

/// The accumulator after one event.
pub open spec fn spec_rec_step(acc: Seq<AccEntry>, e: EventModel) -> Seq<AccEntry> {
    match e {
        EventModel::ItemAdded { item, .. } => {
            let fresh = AccEntry { item_id: item.id, kind: item.kind, text: Seq::<char>::empty() };
            match acc_find(acc, item.id) {
                Some(i) => acc.update(i, fresh),
                None => acc.push(fresh),
            }
        },
        EventModel::TextDelta { item_id, delta, .. } => {
            match acc_find(acc, item_id) {
                Some(i) => acc.update(
                    i,
                    AccEntry {
                        item_id: acc[i].item_id,
                        kind: acc[i].kind,
                        text: acc[i].text + delta,
                    },
                ),
                None => acc,
            }
        },
        _ => acc,
    }
}

/// The accumulator after a whole event stream.
pub open spec fn spec_rec_fold(events: Seq<EventModel>) -> Seq<AccEntry>
    decreases events.len(),
{
    if events.len() == 0 {
        Seq::<AccEntry>::empty()
    } else {
        spec_rec_step(spec_rec_fold(events.drop_last()), events.last())
    }
}

/// Spec model of one reconstructed item.
#[verifier::ext_equal]
pub struct RecModel {
    pub kind: OrsItemKind,
    pub item: InputItemModel,
}

/// The synthesized item of one accumulator entry: an assistant message with
/// one text part holding the accumulated text.
pub open spec fn spec_rec_item(entry: AccEntry) -> RecModel {
    RecModel {
        kind: entry.kind,
        item: InputItemModel::Message {
            role: OrsRole::Assistant,
            content: seq![ContentPartModel::Text { text: entry.text }],
        },
    }
}

/// The synthesized items of the accumulator entries, in first-seen order.
pub open spec fn spec_rec_items(entries: Seq<AccEntry>) -> Seq<RecModel>
    decreases entries.len(),
{
    if entries.len() == 0 {
        Seq::<RecModel>::empty()
    } else {
        spec_rec_items(entries.drop_last()).push(spec_rec_item(entries.last()))
    }
}

/// The output items reconstructed from a captured event stream.
pub open spec fn spec_reconstruct(events: Seq<EventModel>) -> Seq<RecModel> {
    spec_rec_items(spec_rec_fold(events))
}

/// One reconstructed output item, with the kind its store row is labeled
/// with.
#[derive(Clone, PartialEq, Debug)]
pub struct ReconstructedItem {
    pub kind: OrsItemKind,
    pub item: OrsInputItem,
}

impl View for ReconstructedItem {
    type V = RecModel;

    open spec fn view(&self) -> RecModel {
        RecModel { kind: self.kind, item: self.item@ }
    }
}

impl DeepView for ReconstructedItem {
    type V = RecModel;

    open spec fn deep_view(&self) -> RecModel {
        self.view()
    }
}

/// One accumulator entry.
struct RecEntry {
    item_id: String,
    kind: OrsItemKind,
    text: String,
}

impl View for RecEntry {
    type V = AccEntry;

    closed spec fn view(&self) -> AccEntry {
        AccEntry { item_id: self.item_id@, kind: self.kind, text: self.text@ }
    }
}

impl DeepView for RecEntry {
    type V = AccEntry;

    closed spec fn deep_view(&self) -> AccEntry {
        self.view()
    }
}

/// A found first index matches `acc_find`.
proof fn lemma_acc_find_first(acc: Seq<AccEntry>, id: Seq<char>, k: int)
    requires
        0 <= k < acc.len(),
        acc[k].item_id == id,
        forall|j: int| 0 <= j < k ==> #[trigger] acc[j].item_id != id,
    ensures
        acc_find(acc, id) == Some(k),
    decreases k,
{
    if k == 0 {
        assert(acc.first() == acc[0]);
    } else {
        assert(acc[0].item_id != id);
        let rest = acc.drop_first();
        assert(rest[k - 1] == acc[k]);
        assert(forall|j: int| 0 <= j < k - 1 ==> #[trigger] rest[j].item_id != id);
        lemma_acc_find_first(rest, id, k - 1);
    }
}

/// An id absent from every entry is not found.
proof fn lemma_acc_find_none(acc: Seq<AccEntry>, id: Seq<char>)
    requires
        forall|j: int| 0 <= j < acc.len() ==> #[trigger] acc[j].item_id != id,
    ensures
        acc_find(acc, id) is None,
    decreases acc.len(),
{
    if acc.len() > 0 {
        assert(acc.first() == acc[0]);
        let rest = acc.drop_first();
        assert(forall|j: int| 0 <= j < rest.len() ==> #[trigger] rest[j].item_id != id);
        lemma_acc_find_none(rest, id);
    }
}

/// The first index with this item id, if any.
fn find_entry(entries: &Vec<RecEntry>, id: &String) -> (r: Option<usize>)
    ensures
        r matches Some(k) ==> k < entries@.len() && acc_find(entries.deep_view(), id@) == Some(
            k as int,
        ),
        r is None ==> acc_find(entries.deep_view(), id@) is None,
{
    let mut i: usize = 0;
    while i < entries.len()
        invariant
            i <= entries@.len(),
            forall|j: int| 0 <= j < i ==> #[trigger] entries.deep_view()[j].item_id != id@,
        decreases entries@.len() - i,
    {
        if entries[i].item_id == *id {
            proof {
                assert(entries.deep_view()[i as int].item_id == id@);
                lemma_acc_find_first(entries.deep_view(), id@, i as int);
            }
            return Some(i);
        }
        proof {
            assert(entries.deep_view()[i as int].item_id != id@);
        }
        i += 1;
    }
    proof {
        lemma_acc_find_none(entries.deep_view(), id@);
    }
    None
}

/// Reconstructs the output items of a turn from its captured event stream.
pub fn reconstruct_output_items(events: &Vec<OrsEvent>) -> (r: Vec<ReconstructedItem>)
    ensures
        r.deep_view() == spec_reconstruct(events.deep_view()),
{
    let mut entries: Vec<RecEntry> = Vec::new();
    proof {
        assert(events.deep_view().take(0) =~= Seq::<EventModel>::empty());
        assert(entries.deep_view() =~= spec_rec_fold(events.deep_view().take(0)));
    }
    let mut i: usize = 0;
    while i < events.len()
        invariant
            i <= events@.len(),
            entries.deep_view() == spec_rec_fold(events.deep_view().take(i as int)),
        decreases events@.len() - i,
    {
        let ghost evs_v = events.deep_view();
        let ghost acc0 = entries.deep_view();
        proof {
            assert(evs_v.take(i as int + 1).drop_last() =~= evs_v.take(i as int));
            assert(evs_v.take(i as int + 1).last() == evs_v[i as int]);
            assert(evs_v[i as int] == events@[i as int]@);
        }
        match &events[i] {
            OrsEvent::ItemAdded { item, .. } => {
                let fresh = RecEntry {
                    item_id: item.id.clone(),
                    kind: item.kind,
                    text: String::new(),
                };
                match find_entry(&entries, &item.id) {
                    Some(k) => {
                        entries[k] = fresh;
                        proof {
                            assert(entries.deep_view() =~~= acc0.update(k as int, fresh@));
                        }
                    },
                    None => {
                        entries.push(fresh);
                        proof {
                            assert(entries.deep_view() =~~= acc0.push(fresh@));
                        }
                    },
                }
            },
            OrsEvent::TextDelta { item_id, delta, .. } => {
                match find_entry(&entries, item_id) {
                    Some(k) => {
                        let updated = RecEntry {
                            item_id: entries[k].item_id.clone(),
                            kind: entries[k].kind,
                            text: entries[k].text.clone().concat(delta.as_str()),
                        };
                        entries[k] = updated;
                        proof {
                            assert(entries.deep_view() =~~= acc0.update(
                                k as int,
                                AccEntry {
                                    item_id: acc0[k as int].item_id,
                                    kind: acc0[k as int].kind,
                                    text: acc0[k as int].text + delta@,
                                },
                            ));
                        }
                    },
                    None => {},
                }
            },
            _ => {},
        }
        proof {
            assert(entries.deep_view() =~~= spec_rec_fold(evs_v.take(i as int + 1)));
        }
        i += 1;
    }
    proof {
        assert(events.deep_view().take(events@.len() as int) =~= events.deep_view());
    }
    let mut out: Vec<ReconstructedItem> = Vec::new();
    proof {
        assert(entries.deep_view().take(0) =~= Seq::<AccEntry>::empty());
        assert(out.deep_view() =~= spec_rec_items(entries.deep_view().take(0)));
    }
    let mut k: usize = 0;
    while k < entries.len()
        invariant
            k <= entries@.len(),
            out.deep_view() == spec_rec_items(entries.deep_view().take(k as int)),
            entries.deep_view() == spec_rec_fold(events.deep_view()),
        decreases entries@.len() - k,
    {
        let ghost ent_v = entries.deep_view();
        proof {
            assert(ent_v.take(k as int + 1).drop_last() =~= ent_v.take(k as int));
            assert(ent_v.take(k as int + 1).last() == ent_v[k as int]);
            assert(ent_v[k as int] == entries@[k as int]@);
        }
        let mut content: Vec<OrsContentPart> = Vec::new();
        content.push(OrsContentPart::InputText { text: entries[k].text.clone() });
        let rec = ReconstructedItem {
            kind: entries[k].kind,
            item: OrsInputItem::Message { role: OrsRole::Assistant, content },
        };
        proof {
            assert(rec@ =~~= spec_rec_item(ent_v[k as int]));
        }
        out.push(rec);
        proof {
            assert(out.deep_view() =~~= spec_rec_items(ent_v.take(k as int + 1)));
        }
        k += 1;
    }
    proof {
        assert(entries.deep_view().take(entries@.len() as int) =~= entries.deep_view());
    }
    out
}

} // verus!
