//! The enumeration of the captures on the device.
//!
//! The device files captures under titles. The enumeration asks for the
//! storage summary, then for each title in turn, then for each capture of
//! the title: first for its device-wide id, then for its record. The builder
//! holds the place reached and says which command comes next; the caller
//! runs the transaction and hands the payload back.

use std::collections::BTreeMap;
use vstd::prelude::*;
use crate::capture_info::CaptureInfo;
use crate::command::{
    capture_info_request, capture_info_wire, global_capture_id_request, global_capture_id_wire,
    storage_info_request, storage_info_wire, title_info_request, title_info_wire,
};
use crate::error::{Error, FramingError};
use crate::records::{parse_global_capture_id, StorageInfoResp, TitleInfo};
use crate::schema::{decode_error, unsigned_at, Tag};
use crate::store::{file, IndexEntry};

verus! {

/// The index of the captures on the device, by device-wide id.
pub type CaptureIndex = BTreeMap<u32, IndexEntry>;

/// The place that the enumeration has reached: the answer that it waits for.
#[derive(Clone, Copy, Debug, PartialEq, Eq, Structural)]
pub enum Stage {
    /// The storage summary.
    Storage,
    /// The record of this title.
    Title { title_id: u32 },
    /// The device-wide id of the capture at this place of this title, which
    /// holds `of` captures.
    Pair { title_id: u32, local_capture_id: u32, of: u32 },
    /// The record of the capture with this device-wide id.
    Capture { title_id: u32, local_capture_id: u32, of: u32, global_capture_id: u32 },
    /// Nothing: every title has been walked.
    Complete,
}

/// The captures of one title that holds `n` of them, by title and place.
pub open spec fn row(title_id: u32, n: nat) -> Seq<(u32, u32)> {
    Seq::new(n, |i: int| (title_id, (i + 1) as u32))
}

/// The captures of the titles whose numbers of captures are `counts`, by
/// title and place: title one first, and the captures of a title in the
/// order of their places.
pub open spec fn pairs(counts: Seq<u32>) -> Seq<(u32, u32)>
    decreases counts.len(),
{
    if counts.len() == 0 {
        Seq::empty()
    } else {
        pairs(counts.drop_last()) + row(counts.len() as u32, counts.last() as nat)
    }
}

/// True when every entry of `index` is one of the captures `visited`, filed
/// under the id that stands at the same place of `ids`.
pub open spec fn filed_under(
    index: Map<u32, IndexEntry>,
    visited: Seq<(u32, u32)>,
    ids: Seq<u32>,
) -> bool {
    forall|g: u32| #[trigger]
        index.contains_key(g) ==> exists|i: int|
            0 <= i < visited.len() && #[trigger] ids[i] == g && visited[i] == (
                index[g].title_id,
                index[g].local_capture_id,
            )
}

impl Stage {
    /// The record that answers the command of this stage.
    pub open spec fn answer(self) -> Option<Tag> {
        match self {
            Stage::Storage => Some(Tag::Mib),
            Stage::Title { .. } => Some(Tag::Gtb),
            Stage::Pair { .. } => Some(Tag::Gab),
            Stage::Capture { .. } => Some(Tag::Mrb),
            Stage::Complete => None,
        }
    }

    /// The bytes of the command of this stage.
    pub open spec fn request(self) -> Option<Seq<u8>> {
        match self {
            Stage::Storage => Some(storage_info_wire()),
            Stage::Title { title_id } => Some(title_info_wire(title_id)),
            Stage::Pair { title_id, local_capture_id, .. } => Some(
                global_capture_id_wire(title_id, local_capture_id),
            ),
            Stage::Capture { global_capture_id, .. } => Some(capture_info_wire(global_capture_id)),
            Stage::Complete => None,
        }
    }

    /// Why `payload` is not accepted at this stage, or nothing where it is.
    pub open spec fn refusal(self, payload: Seq<u8>) -> Option<Error> {
        match self.answer() {
            Some(tag) => decode_error(tag, payload),
            None => Some(Error::Framing(FramingError::OutOfSequence)),
        }
    }

    /// The stage that follows the storage summary.
    pub open spec fn first(num_titles: u32) -> Stage {
        if num_titles == 0 {
            Stage::Complete
        } else {
            Stage::Title { title_id: 1 }
        }
    }

    /// The stage that follows the last capture of title `title_id`.
    pub open spec fn after_title(num_titles: u32, title_id: u32) -> Stage {
        if title_id < num_titles {
            Stage::Title { title_id: (title_id + 1) as u32 }
        } else {
            Stage::Complete
        }
    }

    /// The stage that follows the record of title `title_id`, which holds
    /// `of` captures.
    pub open spec fn enter_title(num_titles: u32, title_id: u32, of: u32) -> Stage {
        if of == 0 {
            Stage::after_title(num_titles, title_id)
        } else {
            Stage::Pair { title_id, local_capture_id: 1, of }
        }
    }

    /// The stage that follows the record of the capture at place
    /// `local_capture_id` of title `title_id`, which holds `of` captures.
    pub open spec fn after_capture(
        num_titles: u32,
        title_id: u32,
        local_capture_id: u32,
        of: u32,
    ) -> Stage {
        if local_capture_id < of {
            Stage::Pair { title_id, local_capture_id: (local_capture_id + 1) as u32, of }
        } else {
            Stage::after_title(num_titles, title_id)
        }
    }
}

/// An enumeration that stopped on a failure.
#[derive(Debug)]
pub struct Aborted {
    /// The failure.
    pub error: Error,
    /// The captures that had been filed before it.
    pub partial: BTreeMap<u32, IndexEntry>,
}

/// The state of one enumeration.
pub struct IndexBuilder {
    stage: Stage,
    num_titles: u32,
    entries: BTreeMap<u32, IndexEntry>,
    counts: Ghost<Seq<u32>>,
    visited: Ghost<Seq<(u32, u32)>>,
    ids: Ghost<Seq<u32>>,
}

impl IndexBuilder {
    /// The place reached.
    pub closed spec fn stage(&self) -> Stage {
        self.stage
    }

    /// The number of titles that the storage summary declared.
    pub closed spec fn num_titles(&self) -> u32 {
        self.num_titles
    }

    /// The captures filed so far, by device-wide id.
    pub closed spec fn index(&self) -> Map<u32, IndexEntry> {
        self.entries@
    }

    /// The numbers of captures that the titles asked for so far declared, in
    /// the order of the titles.
    pub closed spec fn counts(&self) -> Seq<u32> {
        self.counts@
    }

    /// The captures whose record has been filed, by title and place, in the
    /// order in which they were filed.
    pub closed spec fn visited(&self) -> Seq<(u32, u32)> {
        self.visited@
    }

    /// The device-wide ids under which the captures of `visited` were filed,
    /// in the same order.
    pub closed spec fn ids(&self) -> Seq<u32> {
        self.ids@
    }

    /// What holds of every enumeration, at every stage: the captures filed
    /// are those that precede the place reached, each one once, and every
    /// entry of the index is one of them.
    pub open spec fn consistent(&self) -> bool {
        &&& self.ids().len() == self.visited().len()
        &&& self.counts().len() <= self.num_titles()
        &&& match self.stage() {
            Stage::Storage => self.counts().len() == 0 && self.visited().len() == 0,
            Stage::Title { title_id } => {
                &&& 1 <= title_id <= self.num_titles()
                &&& self.counts().len() == title_id - 1
                &&& self.visited() == pairs(self.counts())
            },
            Stage::Pair { title_id, local_capture_id, of } => {
                &&& 1 <= title_id <= self.num_titles()
                &&& self.counts().len() == title_id
                &&& self.counts().last() == of
                &&& 1 <= local_capture_id <= of
                &&& self.visited() == pairs(self.counts().drop_last()) + row(
                    title_id,
                    (local_capture_id - 1) as nat,
                )
            },
            Stage::Capture { title_id, local_capture_id, of, global_capture_id } => {
                &&& 1 <= title_id <= self.num_titles()
                &&& self.counts().len() == title_id
                &&& self.counts().last() == of
                &&& 1 <= local_capture_id <= of
                &&& self.visited() == pairs(self.counts().drop_last()) + row(
                    title_id,
                    (local_capture_id - 1) as nat,
                )
            },
            Stage::Complete => {
                &&& self.counts().len() == self.num_titles()
                &&& self.visited() == pairs(self.counts())
            },
        }
        &&& filed_under(self.index(), self.visited(), self.ids())
    }

    #[verifier::type_invariant]
    spec fn inv(self) -> bool {
        self.consistent()
    }

    /// True when this state is `before` after it accepted `payload`.
    pub open spec fn follows(&self, before: &Self, payload: Seq<u8>) -> bool {
        match before.stage() {
            Stage::Storage => {
                &&& self.num_titles() == unsigned_at(Tag::Mib, payload, 2)
                &&& self.stage() == Stage::first(self.num_titles())
                &&& self.counts() == before.counts()
                &&& self.visited() == before.visited()
                &&& self.ids() == before.ids()
                &&& self.index() == before.index()
            },
            Stage::Title { title_id } => {
                let of = unsigned_at(Tag::Gtb, payload, 1);
                &&& self.num_titles() == before.num_titles()
                &&& self.stage() == Stage::enter_title(self.num_titles(), title_id, of)
                &&& self.counts() == before.counts().push(of)
                &&& self.visited() == before.visited()
                &&& self.ids() == before.ids()
                &&& self.index() == before.index()
            },
            Stage::Pair { title_id, local_capture_id, of } => {
                &&& self.num_titles() == before.num_titles()
                &&& self.stage() == Stage::Capture {
                    title_id,
                    local_capture_id,
                    of,
                    global_capture_id: unsigned_at(Tag::Gab, payload, 0),
                }
                &&& self.counts() == before.counts()
                &&& self.visited() == before.visited()
                &&& self.ids() == before.ids()
                &&& self.index() == before.index()
            },
            Stage::Capture { title_id, local_capture_id, of, global_capture_id } => {
                &&& self.num_titles() == before.num_titles()
                &&& self.stage() == Stage::after_capture(
                    self.num_titles(),
                    title_id,
                    local_capture_id,
                    of,
                )
                &&& self.counts() == before.counts()
                &&& self.visited() == before.visited().push((title_id, local_capture_id))
                &&& self.ids() == before.ids().push(global_capture_id)
                &&& self.index().contains_key(global_capture_id)
                &&& self.index() == before.index().insert(
                    global_capture_id,
                    self.index()[global_capture_id],
                )
                &&& self.index()[global_capture_id].title_id == title_id
                &&& self.index()[global_capture_id].local_capture_id == local_capture_id
                &&& self.index()[global_capture_id].info.describes(payload)
            },
            Stage::Complete => false,
        }
    }

    /// An enumeration that has not asked for anything yet.
    pub fn new() -> (b: IndexBuilder)
        ensures
            b.consistent(),
            b.stage() == Stage::Storage,
            b.index() == Map::<u32, IndexEntry>::empty(),
            b.visited() == Seq::<(u32, u32)>::empty(),
            b.counts() == Seq::<u32>::empty(),
    {
        IndexBuilder {
            stage: Stage::Storage,
            num_titles: 0,
            entries: BTreeMap::new(),
            counts: Ghost(Seq::empty()),
            visited: Ghost(Seq::empty()),
            ids: Ghost(Seq::empty()),
        }
    }

    /// The place reached.
    pub fn current(&self) -> (s: Stage)
        ensures
            s == self.stage(),
            self.consistent(),
    {
        proof {
            use_type_invariant(self);
        }
        self.stage
    }

    /// True when every title has been walked.
    pub fn is_complete(&self) -> (r: bool)
        ensures
            r <==> self.stage() == Stage::Complete,
    {
        match self.stage {
            Stage::Complete => true,
            _ => false,
        }
    }

    /// The captures filed so far.
    pub fn partial(&self) -> (r: &BTreeMap<u32, IndexEntry>)
        ensures
            r@ == self.index(),
    {
        &self.entries
    }

    /// The command to send next, or nothing where the enumeration is
    /// complete.
    pub fn next_request(&self) -> (r: Option<Vec<u8>>)
        ensures
            match r {
                Some(bytes) => self.stage().request() == Some(bytes@),
                None => self.stage().request() is None,
            },
    {
        proof {
            use_type_invariant(self);
        }
        match self.stage {
            Stage::Storage => Some(storage_info_request()),
            Stage::Title { title_id } => Some(title_info_request(title_id)),
            Stage::Pair { title_id, local_capture_id, of: _ } => Some(
                global_capture_id_request(title_id, local_capture_id),
            ),
            Stage::Capture { title_id: _, local_capture_id: _, of: _, global_capture_id } => Some(
                capture_info_request(global_capture_id),
            ),
            Stage::Complete => None,
        }
    }

    /// Takes the payload that answers the command of the stage reached, and
    /// moves on. A payload that does not decode ends the enumeration: the
    /// failure comes back with the captures filed so far. So does any
    /// payload where the enumeration is complete.
    pub fn accept(self, payload: &[u8]) -> (r: Result<IndexBuilder, Aborted>)
        ensures
            self.consistent(),
            match r {
                Ok(next) => {
                    &&& self.stage().refusal(payload@) is None
                    &&& next.consistent()
                    &&& next.follows(&self, payload@)
                },
                Err(a) => {
                    &&& self.stage().refusal(payload@) == Some(a.error)
                    &&& a.partial@ == self.index()
                },
            },
    {
        proof {
            use_type_invariant(&self);
        }
        match self.stage {
            Stage::Storage => match StorageInfoResp::parse(payload) {
                Ok(info) => {
                    let stage = if info.num_titles == 0 {
                        Stage::Complete
                    } else {
                        Stage::Title { title_id: 1 }
                    };
                    proof {
                        assert(self.counts@ =~= Seq::<u32>::empty());
                        assert(self.visited@ =~= pairs(self.counts@));
                    }
                    Ok(
                        IndexBuilder {
                            stage,
                            num_titles: info.num_titles,
                            entries: self.entries,
                            counts: self.counts,
                            visited: self.visited,
                            ids: self.ids,
                        },
                    )
                },
                Err(error) => Err(Aborted { error, partial: self.entries }),
            },
            Stage::Title { title_id } => match TitleInfo::parse(payload) {
                Ok(title) => {
                    let of: u32 = title.num_captures;
                    let stage = if of > 0 {
                        Stage::Pair { title_id, local_capture_id: 1, of }
                    } else if title_id < self.num_titles {
                        Stage::Title { title_id: title_id + 1 }
                    } else {
                        Stage::Complete
                    };
                    let ghost counts = self.counts@.push(of);
                    proof {
                        assert(counts.drop_last() =~= self.counts@);
                        assert(row(title_id, 0) =~= Seq::<(u32, u32)>::empty());
                        assert(pairs(counts) =~= pairs(self.counts@) + row(title_id, of as nat));
                        assert(self.visited@ =~= pairs(self.counts@) + row(title_id, 0));
                    }
                    Ok(
                        IndexBuilder {
                            stage,
                            num_titles: self.num_titles,
                            entries: self.entries,
                            counts: Ghost(counts),
                            visited: self.visited,
                            ids: self.ids,
                        },
                    )
                },
                Err(error) => Err(Aborted { error, partial: self.entries }),
            },
            Stage::Pair { title_id, local_capture_id, of } => match parse_global_capture_id(
                payload,
            ) {
                Ok(global_capture_id) => Ok(
                    IndexBuilder {
                        stage: Stage::Capture { title_id, local_capture_id, of, global_capture_id },
                        num_titles: self.num_titles,
                        entries: self.entries,
                        counts: self.counts,
                        visited: self.visited,
                        ids: self.ids,
                    },
                ),
                Err(error) => Err(Aborted { error, partial: self.entries }),
            },
            Stage::Capture {
                title_id,
                local_capture_id,
                of,
                global_capture_id,
            } => match CaptureInfo::parse(payload) {
                Ok(info) => {
                    let stage = if local_capture_id < of {
                        Stage::Pair { title_id, local_capture_id: local_capture_id + 1, of }
                    } else if title_id < self.num_titles {
                        Stage::Title { title_id: title_id + 1 }
                    } else {
                        Stage::Complete
                    };
                    let ghost before = self.entries@;
                    let ghost visited = self.visited@.push((title_id, local_capture_id));
                    let ghost ids = self.ids@.push(global_capture_id);
                    let mut entries = self.entries;
                    file(
                        &mut entries,
                        global_capture_id,
                        IndexEntry { info, local_capture_id, title_id },
                    );
                    proof {
                        let done = pairs(self.counts@.drop_last());
                        assert(row(title_id, local_capture_id as nat) =~= row(
                            title_id,
                            (local_capture_id - 1) as nat,
                        ).push((title_id, local_capture_id)));
                        assert(visited =~= done + row(title_id, local_capture_id as nat));
                        assert(pairs(self.counts@) == done + row(title_id, of as nat));
                        assert(filed_under(before, self.visited@, self.ids@));
                        assert forall|g: u32| #[trigger] entries@.contains_key(g) implies exists|
                            i: int,
                        |
                            0 <= i < visited.len() && #[trigger] ids[i] == g && visited[i] == (
                                entries@[g].title_id,
                                entries@[g].local_capture_id,
                            ) by {
                            if g == global_capture_id {
                                let i = visited.len() - 1;
                                assert(ids[i] == g);
                            } else {
                                assert(before.contains_key(g));
                                let i = choose|i: int|
                                    0 <= i < self.visited@.len() && #[trigger] self.ids@[i] == g
                                        && self.visited@[i] == (
                                        before[g].title_id,
                                        before[g].local_capture_id,
                                    );
                                assert(ids[i] == g);
                            }
                        }
                        assert(filed_under(entries@, visited, ids));
                        assert(entries@ =~= before.insert(global_capture_id, entries@[global_capture_id]));
                    }
                    Ok(
                        IndexBuilder {
                            stage,
                            num_titles: self.num_titles,
                            entries,
                            counts: self.counts,
                            visited: Ghost(visited),
                            ids: Ghost(ids),
                        },
                    )
                },
                Err(error) => Err(Aborted { error, partial: self.entries }),
            },
            Stage::Complete => Err(
                Aborted {
                    error: Error::Framing(FramingError::OutOfSequence),
                    partial: self.entries,
                },
            ),
        }
    }

    /// The index, where the enumeration is complete.
    pub fn finish(self) -> (r: Option<BTreeMap<u32, IndexEntry>>)
        ensures
            self.consistent(),
            r is Some <==> self.stage() == Stage::Complete,
            r is Some ==> r.unwrap()@ == self.index(),
    {
        proof {
            use_type_invariant(&self);
        }
        match self.stage {
            Stage::Complete => Some(self.entries),
            _ => None,
        }
    }
}

/// The captures of a title are its places from one up, each one once.
pub proof fn lemma_row(title_id: u32, n: nat, pair: (u32, u32))
    requires
        n <= u32::MAX,
    ensures
        row(title_id, n).no_duplicates(),
        row(title_id, n).contains(pair) <==> pair.0 == title_id && 1 <= pair.1 <= n,
{
    let r = row(title_id, n);
    if pair.0 == title_id && 1 <= pair.1 <= n {
        assert(r[pair.1 - 1] == pair);
    }
}

/// The captures of the titles with `counts` are the pairs of a title and a
/// place in it: titles from one up to the number of titles, places from one
/// up to the number of captures that the title declares.
pub proof fn lemma_pairs_cover(counts: Seq<u32>, pair: (u32, u32))
    requires
        counts.len() <= u32::MAX,
    ensures
        pairs(counts).contains(pair) <==> {
            &&& 1 <= pair.0 <= counts.len()
            &&& 1 <= pair.1 <= counts[pair.0 - 1]
        },
    decreases counts.len(),
{
    if counts.len() > 0 {
        let before = pairs(counts.drop_last());
        let last = row(counts.len() as u32, counts.last() as nat);
        lemma_pairs_cover(counts.drop_last(), pair);
        lemma_row(counts.len() as u32, counts.last() as nat, pair);
        if before.contains(pair) {
            let i = choose|i: int| 0 <= i < before.len() && before[i] == pair;
            assert((before + last)[i] == pair);
        }
        if last.contains(pair) {
            let i = choose|i: int| 0 <= i < last.len() && last[i] == pair;
            assert((before + last)[before.len() + i] == pair);
        }
        if pairs(counts).contains(pair) {
            let i = choose|i: int| 0 <= i < pairs(counts).len() && pairs(counts)[i] == pair;
            if i < before.len() {
                assert(before[i] == pair);
            } else {
                assert(last[i - before.len()] == pair);
            }
        }
    }
}

/// No capture stands twice among those of the titles with `counts`, nor
/// among those that precede any place of the title that comes next.
pub proof fn lemma_pairs_distinct(counts: Seq<u32>, n: nat)
    requires
        counts.len() < u32::MAX,
        n <= u32::MAX,
    ensures
        pairs(counts).no_duplicates(),
        (pairs(counts) + row((counts.len() + 1) as u32, n)).no_duplicates(),
    decreases counts.len(),
{
    if counts.len() > 0 {
        lemma_pairs_distinct(counts.drop_last(), counts.last() as nat);
    }
    let done = pairs(counts);
    let next = row((counts.len() + 1) as u32, n);
    lemma_row((counts.len() + 1) as u32, n, (0u32, 0u32));
    assert forall|i: int, j: int| 0 <= i < done.len() && 0 <= j < next.len() implies done[i]
        != next[j] by {
        lemma_pairs_cover(counts, done[i]);
        assert(done.contains(done[i]));
    }
    vstd::seq_lib::lemma_no_dup_in_concat(done, next);
}

impl IndexBuilder {
    /// At every stage, no capture has been filed twice.
    pub proof fn lemma_visited_distinct(&self)
        requires
            self.consistent(),
        ensures
            self.visited().no_duplicates(),
    {
        let counts = self.counts();
        match self.stage() {
            Stage::Storage => {},
            Stage::Title { title_id } => {
                lemma_pairs_distinct(counts, 0);
            },
            Stage::Pair { title_id, local_capture_id, of } => {
                lemma_pairs_distinct(counts.drop_last(), (local_capture_id - 1) as nat);
            },
            Stage::Capture { title_id, local_capture_id, of, global_capture_id } => {
                lemma_pairs_distinct(counts.drop_last(), (local_capture_id - 1) as nat);
            },
            Stage::Complete => {
                if counts.len() > 0 {
                    lemma_pairs_distinct(counts.drop_last(), counts.last() as nat);
                }
            },
        }
    }

    /// Two entries of the index are never the same capture: entries under
    /// different device-wide ids differ in their title or in their place.
    pub proof fn lemma_entries_distinct(&self, g1: u32, g2: u32)
        requires
            self.consistent(),
            self.index().contains_key(g1),
            self.index().contains_key(g2),
            g1 != g2,
        ensures
            self.index()[g1].title_id != self.index()[g2].title_id || self.index()[g1].local_capture_id
                != self.index()[g2].local_capture_id,
    {
        self.lemma_visited_distinct();
        let visited = self.visited();
        let ids = self.ids();
        let index = self.index();
        let i1 = choose|i: int|
            0 <= i < visited.len() && #[trigger] ids[i] == g1 && visited[i] == (
                index[g1].title_id,
                index[g1].local_capture_id,
            );
        let i2 = choose|i: int|
            0 <= i < visited.len() && #[trigger] ids[i] == g2 && visited[i] == (
                index[g2].title_id,
                index[g2].local_capture_id,
            );
        assert(i1 != i2);
    }

    /// Every entry of the index is a capture that was filed.
    pub proof fn lemma_entries_visited(&self, g: u32)
        requires
            self.consistent(),
            self.index().contains_key(g),
        ensures
            self.visited().contains((self.index()[g].title_id, self.index()[g].local_capture_id)),
    {
        let visited = self.visited();
        let ids = self.ids();
        let index = self.index();
        let i = choose|i: int|
            0 <= i < visited.len() && #[trigger] ids[i] == g && visited[i] == (
                index[g].title_id,
                index[g].local_capture_id,
            );
        assert(visited[i] == (index[g].title_id, index[g].local_capture_id));
    }

    /// Where the enumeration is complete, the captures filed are those that
    /// the titles declared, each one once: every title from one up to the
    /// number that the storage summary gave, and of each title every place
    /// from one up to the number of captures that its record gave.
    pub proof fn lemma_complete(&self, pair: (u32, u32))
        requires
            self.consistent(),
            self.stage() == Stage::Complete,
        ensures
            self.counts().len() == self.num_titles(),
            self.visited() == pairs(self.counts()),
            self.visited().no_duplicates(),
            self.visited().contains(pair) <==> {
                &&& 1 <= pair.0 <= self.num_titles()
                &&& 1 <= pair.1 <= self.counts()[pair.0 - 1]
            },
    {
        self.lemma_visited_distinct();
        lemma_pairs_cover(self.counts(), pair);
    }
}

} // verus!
