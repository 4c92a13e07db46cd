use crate::comment::{is_valid_comment, Comment};
use crate::description::{is_valid_description, Description};
use crate::draft::{DraftView, PatchView, TicketDraft, TicketPatch};
use crate::error::ValidationError;
use crate::status::Status;
use crate::title::{is_valid_title, Title};
use std::collections::HashMap;
use vstd::prelude::*;
use vstd::std_specs::iter::IteratorSpec;

verus! {

broadcast use vstd::std_specs::hash::group_hash_axioms;

/// The identifier of a ticket, unique within its store.
pub type TicketId = u64;

/// A ticket saved in a [`TicketStore`]. Only the store builds tickets, so
/// every ticket has passed validation and carries an identifier of its own.
#[derive(Debug, Clone, PartialEq, Eq)]
pub struct Ticket {
    id: TicketId,
    title: Title,
    description: Description,
    status: Status,
    comments: Vec<Comment>,
}

/// A ticket seen as plain values.
pub struct TicketView {
    pub id: TicketId,
    pub title: Seq<char>,
    pub description: Seq<char>,
    pub status: Status,
    pub comments: Seq<Seq<char>>,
}

/// The texts of a sequence of comments.
pub open spec fn comment_texts(cs: Seq<Comment>) -> Seq<Seq<char>> {
    cs.map_values(|c: Comment| c@)
}

impl View for Ticket {
    type V = TicketView;

    closed spec fn view(&self) -> TicketView {
        TicketView {
            id: self.id,
            title: self.title@,
            description: self.description@,
            status: self.status,
            comments: comment_texts(self.comments@),
        }
    }
}

/// Every field of a ticket holds a value that its validation accepts.
pub open spec fn ticket_valid(t: TicketView) -> bool {
    &&& is_valid_title(t.title)
    &&& is_valid_description(t.description)
    &&& forall|i: int| 0 <= i < t.comments.len() ==> is_valid_comment(#[trigger] t.comments[i])
}

impl Ticket {
    /// The identifier the store gave the ticket.
    pub fn id(&self) -> (r: TicketId)
        ensures
            r == self@.id,
    {
        self.id
    }

    /// The title of the ticket.
    pub fn title(&self) -> (r: &Title)
        ensures
            r@ == self@.title,
    {
        &self.title
    }

    /// The description of the ticket.
    pub fn description(&self) -> (r: &Description)
        ensures
            r@ == self@.description,
    {
        &self.description
    }

    /// The status of the ticket.
    pub fn status(&self) -> (r: Status)
        ensures
            r == self@.status,
    {
        self.status
    }

    /// The comments of the ticket, oldest first.
    pub fn comments(&self) -> (r: &Vec<Comment>)
        ensures
            comment_texts(r@) == self@.comments,
    {
        &self.comments
    }
}

impl Ticket {
    /// Reassembles a ticket that was saved before.
    pub(crate) fn from_parts(
        id: TicketId,
        title: Title,
        description: Description,
        status: Status,
        comments: Vec<Comment>,
    ) -> (r: Ticket)
        ensures
            r@ == (TicketView {
                id,
                title: title@,
                description: description@,
                status,
                comments: comment_texts(comments@),
            }),
    {
        Ticket { id, title, description, status, comments }
    }
}

/// A ticket that was removed from the store, kept apart from live tickets by
/// its type.
#[derive(Debug, Clone, PartialEq, Eq)]
pub struct DeletedTicket(pub Ticket);

impl DeletedTicket {
    /// The ticket as it was when it was removed.
    pub fn ticket(&self) -> (r: &Ticket)
        ensures
            r@ == self.0@,
    {
        &self.0
    }
}

/// A store seen as plain values: the last identifier issued and the tickets
/// by identifier.
pub struct StoreView {
    pub current_id: TicketId,
    pub tickets: Map<TicketId, TicketView>,
}

/// A well-formed store: finitely many valid tickets, each filed under its own
/// identifier, which was issued already (it lies between one and `current_id`).
pub open spec fn store_wf(s: StoreView) -> bool {
    &&& s.tickets.dom().finite()
    &&& forall|k: TicketId| #[trigger] s.tickets.contains_key(k) ==> {
        &&& s.tickets[k].id == k
        &&& 1 <= k <= s.current_id
        &&& ticket_valid(s.tickets[k])
    }
}

/// A fresh store: nothing issued, nothing held.
pub open spec fn empty_store() -> StoreView {
    StoreView { current_id: 0, tickets: Map::empty() }
}

/// The ticket that a draft becomes under identifier `id`.
pub open spec fn ticket_from_draft(id: TicketId, d: DraftView) -> TicketView {
    TicketView {
        id,
        title: d.title,
        description: d.description,
        status: Status::ToDo,
        comments: Seq::empty(),
    }
}

/// The identifier that the next creation issues.
pub open spec fn next_id(s: StoreView) -> int {
    s.current_id + 1
}

/// The store after a draft was saved under the next identifier.
pub open spec fn after_create(s: StoreView, d: DraftView) -> StoreView {
    let id = (s.current_id + 1) as TicketId;
    StoreView { current_id: id, tickets: s.tickets.insert(id, ticket_from_draft(id, d)) }
}

/// The store after the ticket filed under `id`, if any, was removed.
pub open spec fn after_delete(s: StoreView, id: TicketId) -> StoreView {
    StoreView { current_id: s.current_id, tickets: s.tickets.remove(id) }
}

/// A ticket with the fields of a patch that are present put in place.
pub open spec fn patched(t: TicketView, p: PatchView) -> TicketView {
    TicketView {
        id: t.id,
        title: match p.title {
            Some(x) => x,
            None => t.title,
        },
        description: match p.description {
            Some(x) => x,
            None => t.description,
        },
        status: t.status,
        comments: t.comments,
    }
}

/// A ticket with another status.
pub open spec fn with_status(t: TicketView, status: Status) -> TicketView {
    TicketView {
        id: t.id,
        title: t.title,
        description: t.description,
        status,
        comments: t.comments,
    }
}

/// A ticket with one more comment at the end.
pub open spec fn with_comment(t: TicketView, c: Seq<char>) -> TicketView {
    TicketView {
        id: t.id,
        title: t.title,
        description: t.description,
        status: t.status,
        comments: t.comments.push(c),
    }
}

/// The store with the ticket under `id` replaced by `t`, the identifiers
/// issued unchanged.
pub open spec fn with_ticket(s: StoreView, id: TicketId, t: TicketView) -> StoreView {
    StoreView { current_id: s.current_id, tickets: s.tickets.insert(id, t) }
}

/// The tickets of a map, seen as plain values.
pub open spec fn ticket_views(m: Map<TicketId, Ticket>) -> Map<TicketId, TicketView> {
    Map::new(|k: TicketId| m.contains_key(k), |k: TicketId| m[k]@)
}

/// The tickets of a finite map are finitely many.
pub(crate) proof fn lemma_views_finite(m: Map<TicketId, Ticket>)
    requires
        m.dom().finite(),
    ensures
        ticket_views(m).dom().finite(),
{
    assert(ticket_views(m).dom() =~= m.dom());
}

/// The in-memory database of saved tickets.
pub struct TicketStore {
    /// The last identifier issued; the next one is one more.
    current_id: TicketId,
    /// The saved tickets, by identifier.
    data: HashMap<TicketId, Ticket>,
}

impl View for TicketStore {
    type V = StoreView;

    closed spec fn view(&self) -> StoreView {
        StoreView { current_id: self.current_id, tickets: ticket_views(self.data@) }
    }
}

impl TicketStore {
    /// Every store in existence is well formed.
    #[verifier::type_invariant]
    pub open spec fn inv(&self) -> bool {
        store_wf(self@)
    }

    /// An empty store that has issued no identifier.
    pub fn new() -> (r: TicketStore)
        ensures
            r@ == empty_store(),
    {
        let data = HashMap::new();
        assert(ticket_views(data@) =~= Map::<TicketId, TicketView>::empty());
        TicketStore { current_id: 0, data }
    }

    /// Reassembles a store from tickets that were saved before.
    pub(crate) fn from_parts(current_id: TicketId, data: HashMap<TicketId, Ticket>) -> (r: TicketStore)
        requires
            store_wf(StoreView { current_id, tickets: ticket_views(data@) }),
        ensures
            r@ == (StoreView { current_id, tickets: ticket_views(data@) }),
    {
        TicketStore { current_id, data }
    }

    /// The last identifier issued.
    pub fn current_id(&self) -> (r: TicketId)
        ensures
            r == self@.current_id,
    {
        self.current_id
    }

    /// Saves a draft as a new ticket with status `ToDo` and no comments, under
    /// a fresh identifier one above the last one issued, and returns it.
    pub fn create(&mut self, draft: TicketDraft) -> (id: TicketId)
        requires
            old(self)@.current_id < TicketId::MAX,
        ensures
            id == next_id(old(self)@),
            !old(self)@.tickets.contains_key(id),
            final(self)@ == after_create(old(self)@, draft@),
    {
        proof {
            use_type_invariant(&*self);
            use_type_invariant(&draft.title);
            use_type_invariant(&draft.description);
        }
        let id = self.generate_id();
        let ticket = Ticket {
            id,
            title: draft.title,
            description: draft.description,
            status: Status::ToDo,
            comments: Vec::new(),
        };
        assert(ticket@.comments =~= Seq::<Seq<char>>::empty());
        let mut data = self.take_data();
        data.insert(id, ticket);
        proof {
            assert(ticket_views(data@) =~= after_create(old(self)@, draft@).tickets);
            lemma_views_finite(data@);
        }
        self.put_data(data);
        id
    }

    /// Takes the tickets out of the store, leaving it empty, so that they can
    /// change while the store stays well formed.
    fn take_data(&mut self) -> (data: HashMap<TicketId, Ticket>)
        ensures
            ticket_views(data@) == old(self)@.tickets,
            final(self)@ == (StoreView { current_id: old(self)@.current_id, tickets: Map::empty() }),
    {
        let mut data = HashMap::new();
        assert(ticket_views(data@) =~= Map::<TicketId, TicketView>::empty());
        std::mem::swap(&mut self.data, &mut data);
        data
    }

    /// Puts tickets back into a store that `take_data` emptied.
    fn put_data(&mut self, data: HashMap<TicketId, Ticket>)
        requires
            store_wf(StoreView { current_id: old(self)@.current_id, tickets: ticket_views(data@) }),
        ensures
            final(self)@ == (StoreView { current_id: old(self)@.current_id, tickets: ticket_views(data@) }),
    {
        let mut data = data;
        std::mem::swap(&mut self.data, &mut data);
    }

    /// Issues the next identifier.
    fn generate_id(&mut self) -> (id: TicketId)
        requires
            old(self)@.current_id < TicketId::MAX,
        ensures
            id == old(self)@.current_id + 1,
            final(self)@.current_id == id,
            final(self)@.tickets == old(self)@.tickets,
    {
        proof {
            use_type_invariant(&*self);
        }
        self.current_id = self.current_id + 1;
        self.current_id
    }

    /// The ticket filed under `id`, if any.
    pub fn get(&self, id: TicketId) -> (r: Option<&Ticket>)
        ensures
            match r {
                Some(t) => self@.tickets.contains_key(id) && t@ == self@.tickets[id],
                None => !self@.tickets.contains_key(id),
            },
    {
        self.data.get(&id)
    }

    /// Applies `patch` to the ticket filed under `id`: each field present in
    /// the patch replaces the ticket's, the identifier, status and comments
    /// stay. When there is no such ticket, nothing changes and `None` comes
    /// back.
    pub fn update_ticket(&mut self, id: TicketId, patch: TicketPatch) -> (r: Option<()>)
        ensures
            old(self)@.tickets.contains_key(id) ==> r is Some && final(self)@ == with_ticket(
                old(self)@,
                id,
                patched(old(self)@.tickets[id], patch@),
            ),
            !old(self)@.tickets.contains_key(id) ==> r is None && final(self)@ == old(self)@,
    {
        proof {
            use_type_invariant(&*self);
        }
        let ghost p = patch@;
        let mut data = self.take_data();
        let r = match data.remove(&id) {
            Some(t) => {
                let mut t = t;
                if let Some(title) = patch.title {
                    proof {
                        use_type_invariant(&title);
                    }
                    t.title = title;
                }
                if let Some(description) = patch.description {
                    proof {
                        use_type_invariant(&description);
                    }
                    t.description = description;
                }
                assert(t@ == patched(old(self)@.tickets[id], p));
                data.insert(id, t);
                Some(())
            },
            None => None,
        };
        proof {
            if old(self)@.tickets.contains_key(id) {
                assert(ticket_views(data@) =~= old(self)@.tickets.insert(id, patched(old(self)@.tickets[id], p)));
            } else {
                assert(ticket_views(data@) =~= old(self)@.tickets);
            }
            lemma_views_finite(data@);
        }
        self.put_data(data);
        r
    }

    /// Gives the ticket filed under `id` the status `status`, and changes
    /// nothing else. When there is no such ticket, nothing changes and `None`
    /// comes back.
    pub fn update_ticket_status(&mut self, id: TicketId, status: Status) -> (r: Option<()>)
        ensures
            old(self)@.tickets.contains_key(id) ==> r is Some && final(self)@ == with_ticket(
                old(self)@,
                id,
                with_status(old(self)@.tickets[id], status),
            ),
            !old(self)@.tickets.contains_key(id) ==> r is None && final(self)@ == old(self)@,
    {
        proof {
            use_type_invariant(&*self);
        }
        let mut data = self.take_data();
        let r = match data.remove(&id) {
            Some(t) => {
                let mut t = t;
                t.status = status;
                data.insert(id, t);
                Some(())
            },
            None => None,
        };
        proof {
            if old(self)@.tickets.contains_key(id) {
                assert(ticket_views(data@) =~= old(self)@.tickets.insert(id, with_status(old(self)@.tickets[id], status)));
            } else {
                assert(ticket_views(data@) =~= old(self)@.tickets);
            }
            lemma_views_finite(data@);
        }
        self.put_data(data);
        r
    }

    /// Validates `comment` and appends it to the comments of the ticket filed
    /// under `id`. An empty comment fails the whole call and changes nothing;
    /// when there is no such ticket, nothing changes and `None` comes back.
    pub fn add_comment_to_ticket(&mut self, id: TicketId, comment: String) -> (r: Result<Option<()>, ValidationError>)
        ensures
            !is_valid_comment(comment@) ==> r == Err::<Option<()>, ValidationError>(ValidationError::EmptyComment)
                && final(self)@ == old(self)@,
            is_valid_comment(comment@) && old(self)@.tickets.contains_key(id) ==> r == Ok::<Option<()>, ValidationError>(Some(()))
                && final(self)@ == with_ticket(old(self)@, id, with_comment(old(self)@.tickets[id], comment@)),
            is_valid_comment(comment@) && !old(self)@.tickets.contains_key(id) ==> r == Ok::<Option<()>, ValidationError>(None)
                && final(self)@ == old(self)@,
    {
        proof {
            use_type_invariant(&*self);
        }
        let ghost text = comment@;
        let new_comment = match Comment::new(comment) {
            Ok(c) => c,
            Err(e) => return Err(e),
        };
        proof {
            use_type_invariant(&new_comment);
        }
        let mut data = self.take_data();
        let r = match data.remove(&id) {
            Some(t) => {
                let mut t = t;
                let ghost before = t.comments@;
                t.comments.push(new_comment);
                assert(comment_texts(t.comments@) =~= comment_texts(before).push(text));
                data.insert(id, t);
                Some(())
            },
            None => None,
        };
        proof {
            if old(self)@.tickets.contains_key(id) {
                let nt = with_comment(old(self)@.tickets[id], text);
                assert forall|i: int| 0 <= i < nt.comments.len() implies is_valid_comment(#[trigger] nt.comments[i]) by {
                    if i < nt.comments.len() - 1 {
                        assert(nt.comments[i] == old(self)@.tickets[id].comments[i]);
                    }
                }
                assert(ticket_views(data@) =~= old(self)@.tickets.insert(id, nt));
            } else {
                assert(ticket_views(data@) =~= old(self)@.tickets);
            }
            lemma_views_finite(data@);
        }
        self.put_data(data);
        Ok(r)
    }

    /// Every saved ticket, each once, in no particular order.
    pub fn list(&self) -> (r: Vec<&Ticket>)
        ensures
            r@.len() == self@.tickets.len(),
            forall|i: int| 0 <= i < r@.len() ==> {
                &&& self@.tickets.contains_key(#[trigger] r@[i]@.id)
                &&& self@.tickets[r@[i]@.id] == r@[i]@
            },
            forall|k: TicketId| #[trigger] self@.tickets.contains_key(k) ==> exists|i: int| 0 <= i < r@.len() && r@[i]@.id == k,
            forall|i: int, j: int| 0 <= i < j < r@.len() ==> r@[i]@.id != r@[j]@.id,
    {
        proof {
            use_type_invariant(self);
        }
        let mut r: Vec<&Ticket> = Vec::new();
        let entries = self.data.iter();
        let ghost v = entries.remaining();
        for entry in it: entries
            invariant
                it.seq() == v,
                r@.len() == it.index(),
                forall|i: int| 0 <= i < it.index() ==> r@[i] == v[i].1,
        {
            let (_, t) = entry;
            r.push(t);
        }
        proof {
            assert(self@.tickets.dom() =~= self.data@.dom());
            assert forall|i: int| 0 <= i < r@.len() implies {
                &&& self@.tickets.contains_key(#[trigger] r@[i]@.id)
                &&& self@.tickets[r@[i]@.id] == r@[i]@
            } by {
                assert(self.data@.contains_key(*v[i].0));
            }
            assert forall|k: TicketId| #[trigger] self@.tickets.contains_key(k) implies exists|i: int|
                0 <= i < r@.len() && r@[i]@.id == k by {
                assert(self.data@.contains_key(k));
                assert(v.contains((&k, &self.data@[k])));
                let i = choose|i: int| 0 <= i < v.len() && v[i] == (&k, &self.data@[k]);
                assert(r@[i]@.id == k);
            }
            assert forall|i: int, j: int| 0 <= i < j < r@.len() implies r@[i]@.id != r@[j]@.id by {
                let ki = *v[i].0;
                let kj = *v[j].0;
                assert(self.data@.contains_key(ki) && self.data@[ki] == *v[i].1);
                assert(self.data@.contains_key(kj) && self.data@[kj] == *v[j].1);
                assert(self@.tickets.contains_key(ki) && self@.tickets.contains_key(kj));
                if r@[i]@.id == r@[j]@.id {
                    assert(ki == kj);
                    assert(v[i] == v[j]);
                }
            }
        }
        r
    }

    /// Removes the ticket filed under `id` and hands it back; when there is
    /// none, nothing changes.
    pub fn delete(&mut self, id: TicketId) -> (r: Option<DeletedTicket>)
        ensures
            final(self)@ == after_delete(old(self)@, id),
            match r {
                Some(d) => old(self)@.tickets.contains_key(id) && d.0@ == old(self)@.tickets[id],
                None => !old(self)@.tickets.contains_key(id),
            },
    {
        proof {
            use_type_invariant(&*self);
        }
        let mut data = self.take_data();
        let r = data.remove(&id);
        proof {
            assert(ticket_views(data@) =~= old(self)@.tickets.remove(id));
            lemma_views_finite(data@);
        }
        self.put_data(data);
        match r {
            Some(t) => Some(DeletedTicket(t)),
            None => None,
        }
    }
}

/// The store after saving each draft of `ds` in turn.
pub open spec fn after_creates(s: StoreView, ds: Seq<DraftView>) -> StoreView
    decreases ds.len(),
{
    if ds.len() == 0 {
        s
    } else {
        after_create(after_creates(s, ds.drop_last()), ds.last())
    }
}

/// Identifiers are issued in call order from one, without gaps: on a fresh
/// store, the creation of the draft at position `i` hands out `i + 1`, and
/// after `n` creations the last identifier issued is `n`.
pub proof fn lemma_fresh_store_numbers_creations(ds: Seq<DraftView>)
    requires
        ds.len() <= TicketId::MAX,
    ensures
        forall|i: int| 0 <= i < ds.len() ==> next_id(#[trigger] after_creates(empty_store(), ds.take(i))) == i + 1,
        after_creates(empty_store(), ds).current_id == ds.len(),
    decreases ds.len(),
{
    if ds.len() > 0 {
        let init = ds.drop_last();
        lemma_fresh_store_numbers_creations(init);
        assert forall|i: int| 0 <= i < ds.len() implies next_id(#[trigger] after_creates(empty_store(), ds.take(i))) == i + 1 by {
            if i < init.len() {
                assert(ds.take(i) =~= init.take(i));
            } else {
                assert(ds.take(i) =~= init);
            }
        }
    }
}

/// On a fresh store, `n` creations leave exactly `n` tickets: the draft at
/// position `i` under identifier `i + 1`, with status `ToDo` and no comments,
/// and nothing under any other identifier.
pub proof fn lemma_fresh_store_holds_creations(ds: Seq<DraftView>)
    requires
        ds.len() <= TicketId::MAX,
    ensures
        after_creates(empty_store(), ds).tickets.dom().finite(),
        after_creates(empty_store(), ds).tickets.len() == ds.len(),
        forall|k: TicketId| #[trigger] after_creates(empty_store(), ds).tickets.contains_key(k) <==> 1 <= k <= ds.len(),
        forall|i: int| 0 <= i < ds.len() ==> after_creates(empty_store(), ds).tickets[(i + 1) as TicketId]
            == ticket_from_draft((i + 1) as TicketId, #[trigger] ds[i]),
    decreases ds.len(),
{
    lemma_fresh_store_numbers_creations(ds);
    if ds.len() == 0 {
        assert(empty_store().tickets.dom() =~= Set::<TicketId>::empty());
    } else {
        let init = ds.drop_last();
        lemma_fresh_store_holds_creations(init);
        lemma_fresh_store_numbers_creations(init);
        let before = after_creates(empty_store(), init);
        let id = ds.len() as TicketId;
        assert(!before.tickets.contains_key(id));
        assert(after_creates(empty_store(), ds).tickets.dom() =~= before.tickets.dom().insert(id));
        assert forall|i: int| 0 <= i < ds.len() implies after_creates(empty_store(), ds).tickets[(i + 1) as TicketId]
            == ticket_from_draft((i + 1) as TicketId, #[trigger] ds[i]) by {
            if i < init.len() {
                assert(init[i] == ds[i]);
            }
        }
    }
}

/// A created ticket reads back as its draft: under the identifier that
/// `create` hands out, the store holds a ticket with the draft's title and
/// description, status `ToDo` and no comments.
pub proof fn lemma_get_after_create(s: StoreView, d: DraftView)
    requires
        store_wf(s),
        s.current_id < TicketId::MAX,
    ensures
        ({
            let k = next_id(s) as TicketId;
            let t = after_create(s, d).tickets[k];
            &&& after_create(s, d).tickets.contains_key(k)
            &&& t.id == k
            &&& t.title == d.title
            &&& t.description == d.description
            &&& t.status == Status::ToDo
            &&& t.comments.len() == 0
        }),
{
}

/// An identifier that was never issued, or whose ticket was deleted, has no
/// ticket filed under it.
pub proof fn lemma_unissued_or_deleted_is_absent(s: StoreView, id: TicketId)
    requires
        store_wf(s),
    ensures
        id == 0 || id > s.current_id ==> !s.tickets.contains_key(id),
        !after_delete(s, id).tickets.contains_key(id),
{
}

/// Deleting removes the ticket for good and leaves the others; deleting an
/// identifier with no ticket changes nothing.
pub proof fn lemma_delete_removes(s: StoreView, id: TicketId)
    ensures
        !after_delete(s, id).tickets.contains_key(id),
        forall|k: TicketId| k != id ==> #[trigger] after_delete(s, id).tickets.contains_key(k) == s.tickets.contains_key(k)
            && after_delete(s, id).tickets[k] == s.tickets[k],
        !s.tickets.contains_key(id) ==> after_delete(s, id) == s,
{
    if !s.tickets.contains_key(id) {
        assert(s.tickets.remove(id) =~= s.tickets);
    }
}

/// Identifiers are never reused: after a ticket is deleted, the next
/// creation hands out an identifier above the deleted one.
pub proof fn lemma_ids_not_reused(s: StoreView, id: TicketId)
    requires
        store_wf(s),
        s.tickets.contains_key(id),
    ensures
        next_id(after_delete(s, id)) > id,
{
}

/// A fresh store holds no ticket, so listing it gives nothing.
pub proof fn lemma_empty_store_is_empty()
    ensures
        empty_store().tickets.len() == 0,
        forall|k: TicketId| !(#[trigger] empty_store().tickets.contains_key(k)),
{
}

/// A patch replaces exactly the fields it holds: with no field it leaves the
/// ticket as it was, and the identifier, status and comments never change.
pub proof fn lemma_patch_replaces_present_fields(t: TicketView, p: PatchView)
    ensures
        p.title is None && p.description is None ==> patched(t, p) == t,
        patched(t, p).title == (if p.title is Some { p.title->Some_0 } else { t.title }),
        patched(t, p).description == (if p.description is Some { p.description->Some_0 } else { t.description }),
        patched(t, p).id == t.id,
        patched(t, p).status == t.status,
        patched(t, p).comments == t.comments,
{
}

} // verus!
