use crate::comment::{is_valid_comment, Comment};
use crate::description::Description;
use crate::status::Status;
use crate::store::{
    comment_texts, empty_store, lemma_views_finite, store_wf, ticket_valid, ticket_views,
    StoreView, Ticket, TicketId, TicketStore, TicketView,
};
use crate::title::Title;
use std::collections::HashMap;
use vstd::prelude::*;

verus! {

broadcast use vstd::std_specs::hash::group_hash_axioms;

/// A ticket as it is written to disk: plain text, not validated yet.
#[derive(Debug, Clone, PartialEq, Eq)]
pub struct TicketRecord {
    pub id: TicketId,
    pub title: String,
    pub description: String,
    pub status: Status,
    pub comments: Vec<String>,
}

/// The characters of each string of a sequence.
pub open spec fn texts(v: Seq<String>) -> Seq<Seq<char>> {
    v.map_values(|c: String| c@)
}

impl View for TicketRecord {
    type V = TicketView;

    open spec fn view(&self) -> TicketView {
        TicketView {
            id: self.id,
            title: self.title@,
            description: self.description@,
            status: self.status,
            comments: texts(self.comments@),
        }
    }
}

/// A whole store as it is written to disk: the last identifier issued and
/// every ticket.
#[derive(Debug, Clone, PartialEq, Eq)]
pub struct StoreSnapshot {
    pub current_id: TicketId,
    pub tickets: Vec<TicketRecord>,
}

/// A snapshot seen as plain values.
pub struct SnapshotView {
    pub current_id: TicketId,
    pub tickets: Seq<TicketView>,
}

/// The views of a sequence of records.
pub open spec fn record_views(v: Seq<TicketRecord>) -> Seq<TicketView> {
    v.map_values(|r: TicketRecord| r@)
}

impl View for StoreSnapshot {
    type V = SnapshotView;

    open spec fn view(&self) -> SnapshotView {
        SnapshotView { current_id: self.current_id, tickets: record_views(self.tickets@) }
    }
}

/// No two records share an identifier.
pub open spec fn ids_distinct(ts: Seq<TicketView>) -> bool {
    forall|i: int, j: int| 0 <= i < j < ts.len() ==> ts[i].id != ts[j].id
}

/// A snapshot that describes a well-formed store: valid tickets, each under an
/// identifier that was issued already, no identifier twice.
pub open spec fn snapshot_valid(snap: SnapshotView) -> bool {
    &&& ids_distinct(snap.tickets)
    &&& forall|i: int| 0 <= i < snap.tickets.len() ==> {
        &&& ticket_valid(#[trigger] snap.tickets[i])
        &&& 1 <= snap.tickets[i].id <= snap.current_id
    }
}

/// The tickets of a sequence of records, by identifier.
pub open spec fn records_map(ts: Seq<TicketView>) -> Map<TicketId, TicketView>
    decreases ts.len(),
{
    if ts.len() == 0 {
        Map::empty()
    } else {
        records_map(ts.drop_last()).insert(ts.last().id, ts.last())
    }
}

/// The store that a snapshot describes.
pub open spec fn restored(snap: SnapshotView) -> StoreView {
    StoreView { current_id: snap.current_id, tickets: records_map(snap.tickets) }
}

/// `snap` holds the last identifier that `s` issued and lists the tickets of
/// `s`, each once.
pub open spec fn snapshot_of(snap: SnapshotView, s: StoreView) -> bool {
    &&& snap.current_id == s.current_id
    &&& ids_distinct(snap.tickets)
    &&& forall|i: int| 0 <= i < snap.tickets.len() ==> {
        &&& s.tickets.contains_key(#[trigger] snap.tickets[i].id)
        &&& s.tickets[snap.tickets[i].id] == snap.tickets[i]
    }
    &&& forall|k: TicketId| #[trigger] s.tickets.contains_key(k) ==> exists|i: int|
        0 <= i < snap.tickets.len() && snap.tickets[i].id == k
}

/// Why a snapshot does not describe a well-formed store.
#[derive(Debug, Clone, Copy, PartialEq, Eq, Structural)]
pub enum SnapshotError {
    /// The title, the description or a comment of this ticket fails validation.
    InvalidTicket(TicketId),
    /// This identifier was never issued: it is zero, or above the last one issued.
    IdNotIssued(TicketId),
    /// Two tickets share this identifier.
    DuplicateId(TicketId),
}

/// The defect that `e` reports is present in `snap`.
pub open spec fn defect_found(snap: SnapshotView, e: SnapshotError) -> bool {
    let ts = snap.tickets;
    match e {
        SnapshotError::InvalidTicket(k) => exists|i: int|
            0 <= i < ts.len() && ts[i].id == k && !ticket_valid(ts[i]),
        SnapshotError::IdNotIssued(k) => exists|i: int|
            0 <= i < ts.len() && ts[i].id == k && (k == 0 || k > snap.current_id),
        SnapshotError::DuplicateId(k) => exists|i: int, j: int|
            0 <= i < j < ts.len() && ts[i].id == k && ts[j].id == k,
    }
}

/// Which identifiers `records_map` files, and what under each.
proof fn lemma_records_map(ts: Seq<TicketView>)
    ensures
        records_map(ts).dom().finite(),
        forall|k: TicketId| #[trigger]
            records_map(ts).contains_key(k) <==> exists|i: int| 0 <= i < ts.len() && ts[i].id == k,
        ids_distinct(ts) ==> forall|i: int|
            0 <= i < ts.len() ==> #[trigger] records_map(ts)[ts[i].id] == ts[i],
    decreases ts.len(),
{
    if ts.len() > 0 {
        let init = ts.drop_last();
        lemma_records_map(init);
        assert forall|k: TicketId| #[trigger] records_map(ts).contains_key(k) implies exists|i: int|
            0 <= i < ts.len() && ts[i].id == k by {
            if k != ts.last().id {
                let i = choose|i: int| 0 <= i < init.len() && init[i].id == k;
                assert(ts[i] == init[i]);
            }
        }
        assert forall|k: TicketId| (exists|i: int| 0 <= i < ts.len() && ts[i].id == k) implies #[trigger]
            records_map(ts).contains_key(k) by {
            let i = choose|i: int| 0 <= i < ts.len() && ts[i].id == k;
            if i < ts.len() - 1 {
                assert(init[i] == ts[i]);
            }
        }
        if ids_distinct(ts) {
            assert forall|i: int| 0 <= i < ts.len() implies #[trigger] records_map(ts)[ts[i].id]
                == ts[i] by {
                if i < ts.len() - 1 {
                    assert(init[i] == ts[i]);
                    assert(ts[i].id != ts[ts.len() - 1].id);
                }
            }
        }
    }
}

/// Loading what was saved gives back the store that was saved: a snapshot
/// that lists a well-formed store is valid, and the store it describes is
/// that store, with the same tickets and the same last identifier issued.
pub proof fn lemma_save_load_round_trip(s: StoreView, snap: SnapshotView)
    requires
        store_wf(s),
        snapshot_of(snap, s),
    ensures
        snapshot_valid(snap),
        restored(snap) == s,
{
    lemma_records_map(snap.tickets);
    assert forall|k: TicketId| #[trigger] records_map(snap.tickets).contains_key(k) implies s.tickets.contains_key(k)
        && records_map(snap.tickets)[k] == s.tickets[k] by {
        let i = choose|i: int| 0 <= i < snap.tickets.len() && snap.tickets[i].id == k;
        assert(records_map(snap.tickets)[snap.tickets[i].id] == snap.tickets[i]);
    }
    assert forall|k: TicketId| #[trigger] s.tickets.contains_key(k) implies records_map(snap.tickets).contains_key(k) by {
        let i = choose|i: int| 0 <= i < snap.tickets.len() && snap.tickets[i].id == k;
    }
    assert(records_map(snap.tickets) =~= s.tickets);
}

/// The record of a ticket.
fn record_of(t: &Ticket) -> (r: TicketRecord)
    ensures
        r@ == t@,
{
    let cs = t.comments();
    let mut comments: Vec<String> = Vec::new();
    let mut i: usize = 0;
    while i < cs.len()
        invariant
            i <= cs@.len(),
            comments@.len() == i,
            forall|j: int| 0 <= j < i ==> #[trigger] comments@[j]@ == cs@[j]@,
        decreases cs.len() - i,
    {
        comments.push(cs[i].as_str().to_owned());
        i = i + 1;
    }
    assert(texts(comments@) =~= comment_texts(cs@));
    TicketRecord {
        id: t.id(),
        title: t.title().as_str().to_owned(),
        description: t.description().as_str().to_owned(),
        status: t.status(),
        comments,
    }
}

/// The ticket that a record describes, when every field passes validation.
fn ticket_of(rec: &TicketRecord) -> (r: Option<Ticket>)
    ensures
        r is Some <==> ticket_valid(rec@),
        r matches Some(t) ==> t@ == rec@,
{
    let title = match Title::new(rec.title.clone()) {
        Ok(t) => t,
        Err(_) => return None,
    };
    let description = match Description::new(rec.description.clone()) {
        Ok(d) => d,
        Err(_) => return None,
    };
    let mut comments: Vec<Comment> = Vec::new();
    let mut i: usize = 0;
    while i < rec.comments.len()
        invariant
            i <= rec.comments@.len(),
            comments@.len() == i,
            forall|j: int| 0 <= j < i ==> #[trigger] comments@[j]@ == rec.comments@[j]@,
            forall|j: int| 0 <= j < i ==> is_valid_comment(#[trigger] rec@.comments[j]),
        decreases rec.comments.len() - i,
    {
        match Comment::new(rec.comments[i].clone()) {
            Ok(c) => comments.push(c),
            Err(_) => {
                assert(!is_valid_comment(rec@.comments[i as int]));
                return None;
            },
        }
        i = i + 1;
    }
    assert(comment_texts(comments@) =~= texts(rec.comments@));
    Some(Ticket::from_parts(rec.id, title, description, rec.status, comments))
}

/// The snapshot of a store: its last identifier issued and every ticket,
/// each once.
pub fn save(store: &TicketStore) -> (r: StoreSnapshot)
    ensures
        snapshot_of(r@, store@),
{
    let tickets = store.list();
    let mut records: Vec<TicketRecord> = Vec::new();
    let mut i: usize = 0;
    while i < tickets.len()
        invariant
            i <= tickets@.len(),
            records@.len() == i,
            forall|j: int| 0 <= j < i ==> #[trigger] records@[j]@ == tickets@[j]@,
        decreases tickets.len() - i,
    {
        records.push(record_of(tickets[i]));
        i = i + 1;
    }
    let r = StoreSnapshot { current_id: store.current_id(), tickets: records };
    assert forall|k: TicketId| #[trigger] store@.tickets.contains_key(k) implies exists|i: int|
        0 <= i < r@.tickets.len() && r@.tickets[i].id == k by {
        let i = choose|i: int| 0 <= i < tickets@.len() && tickets@[i]@.id == k;
        assert(r@.tickets[i] == records@[i]@);
    }
    r
}

/// Rebuilds the store that a snapshot describes, checking every ticket.
pub fn restore(snap: &StoreSnapshot) -> (r: Result<TicketStore, SnapshotError>)
    ensures
        r is Ok <==> snapshot_valid(snap@),
        match r {
            Ok(s) => s@ == restored(snap@),
            Err(e) => defect_found(snap@, e),
        },
{
    let ghost ts = snap@.tickets;
    let mut data: HashMap<TicketId, Ticket> = HashMap::new();
    let mut i: usize = 0;
    proof {
        assert(ts.take(0) =~= Seq::<TicketView>::empty());
        assert(ticket_views(data@) =~= records_map(ts.take(0)));
    }
    while i < snap.tickets.len()
        invariant
            ts == snap@.tickets,
            i <= ts.len(),
            data@.dom().finite(),
            ticket_views(data@) == records_map(ts.take(i as int)),
            ids_distinct(ts.take(i as int)),
            forall|j: int| 0 <= j < i ==> {
                &&& ticket_valid(#[trigger] ts[j])
                &&& 1 <= ts[j].id <= snap.current_id
            },
        decreases ts.len() - i,
    {
        let rec = &snap.tickets[i];
        assert(rec@ == ts[i as int]);
        let ticket = match ticket_of(rec) {
            Some(t) => t,
            None => return Err(SnapshotError::InvalidTicket(rec.id)),
        };
        if rec.id == 0 || rec.id > snap.current_id {
            return Err(SnapshotError::IdNotIssued(rec.id));
        }
        if data.contains_key(&rec.id) {
            proof {
                lemma_records_map(ts.take(i as int));
                assert(records_map(ts.take(i as int)).contains_key(rec.id));
                let j = choose|j: int| 0 <= j < i && ts.take(i as int)[j].id == rec.id;
                assert(ts[j].id == rec.id);
            }
            return Err(SnapshotError::DuplicateId(rec.id));
        }
        data.insert(rec.id, ticket);
        proof {
            let next = ts.take(i + 1);
            assert(next.drop_last() =~= ts.take(i as int));
            assert(next.last() == ts[i as int]);
            assert(ticket_views(data@) =~= records_map(next));
            lemma_records_map(ts.take(i as int));
            assert forall|a: int, b: int| 0 <= a < b < next.len() implies next[a].id != next[b].id by {
                if b == i {
                    assert(ts.take(i as int)[a] == next[a]);
                    assert(records_map(ts.take(i as int)).contains_key(next[a].id));
                } else {
                    assert(ts.take(i as int)[a] == next[a]);
                    assert(ts.take(i as int)[b] == next[b]);
                }
            }
        }
        i = i + 1;
    }
    proof {
        assert(ts.take(ts.len() as int) =~= ts);
        lemma_records_map(ts);
        lemma_views_finite(data@);
        assert forall|k: TicketId| #[trigger] records_map(ts).contains_key(k) implies {
            &&& records_map(ts)[k].id == k
            &&& 1 <= k <= snap.current_id
            &&& ticket_valid(records_map(ts)[k])
        } by {
            let j = choose|j: int| 0 <= j < ts.len() && ts[j].id == k;
            assert(records_map(ts)[ts[j].id] == ts[j]);
        }
    }
    Ok(TicketStore::from_parts(snap.current_id, data))
}

/// The store to work on: a fresh one when no snapshot was saved yet,
/// otherwise the store that the snapshot describes.
pub fn load(snapshot: Option<StoreSnapshot>) -> (r: Result<TicketStore, SnapshotError>)
    ensures
        match snapshot {
            None => r matches Ok(s) && s@ == empty_store(),
            Some(snap) => {
                &&& r is Ok <==> snapshot_valid(snap@)
                &&& match r {
                    Ok(s) => s@ == restored(snap@),
                    Err(e) => defect_found(snap@, e),
                }
            },
        },
{
    match snapshot {
        None => Ok(TicketStore::new()),
        Some(snap) => restore(&snap),
    }
}

} // verus!
