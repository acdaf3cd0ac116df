//! The collector's table: the latest report of every field that holds players.
use vstd::prelude::*;
use crate::grid::{ActorInfo, Position};
use crate::ids::{ActorId, ActorIdModel};
use crate::seqs::{lemma_push_unique, lemma_remove_unique};

verus! {

/// The latest report of each field, keyed by the field's identifier.
#[derive(Debug)]
pub struct FieldReports {
    entries: Vec<(ActorId, ActorInfo)>,
}

impl FieldReports {
    /// Identifiers of the fields reported, in order of first report.
    pub closed spec fn ids(&self) -> Seq<ActorIdModel> {
        self.entries@.map_values(|e: (ActorId, ActorInfo)| e.0@)
    }

    /// The reports, in the order of `ids`.
    pub closed spec fn infos(&self) -> Seq<ActorInfo> {
        self.entries@.map_values(|e: (ActorId, ActorInfo)| e.1)
    }

    pub closed spec fn wf(&self) -> bool {
        self.ids().no_duplicates()
    }

    /// The report held for field `id`.
    pub open spec fn report_of(&self, id: ActorIdModel) -> Option<ActorInfo> {
        if self.ids().contains(id) {
            let i = choose|i: int| 0 <= i < self.ids().len() && self.ids()[i] == id;
            Some(self.infos()[i])
        } else {
            None
        }
    }

    /// An empty table.
    pub fn new() -> (r: FieldReports)
        ensures
            r.wf(),
            forall|id: ActorIdModel| r.report_of(id) is None,
    {
        FieldReports { entries: Vec::new() }
    }

    /// The number of fields reported.
    pub fn len(&self) -> (r: usize)
        ensures
            r == self.ids().len(),
    {
        self.entries.len()
    }

    /// The identifier and report at index `i`.
    pub fn entry(&self, i: usize) -> (r: (ActorId, ActorInfo))
        requires
            i < self.ids().len(),
        ensures
            r.0@ == self.ids()[i as int],
            r.1 == self.infos()[i as int],
    {
        (self.entries[i].0.copy(), self.entries[i].1)
    }

    fn index_of(&self, id: &ActorId) -> (r: Option<usize>)
        ensures
            match r {
                Some(i) => i < self.ids().len() && self.ids()[i as int] == id@,
                None => !self.ids().contains(id@),
            },
    {
        let mut i: usize = 0;
        while i < self.entries.len()
            invariant
                0 <= i <= self.entries@.len(),
                forall|k: int| 0 <= k < i ==> self.ids()[k] != id@,
            decreases self.entries@.len() - i,
        {
            if self.entries[i].0.eq(id) {
                return Some(i);
            }
            i = i + 1;
        }
        None
    }

    proof fn lemma_report_at(&self, i: int)
        requires
            self.wf(),
            0 <= i < self.ids().len(),
        ensures
            self.report_of(self.ids()[i]) == Some(self.infos()[i]),
    {
        let id = self.ids()[i];
        assert(self.ids().contains(id));
        let j = choose|j: int| 0 <= j < self.ids().len() && self.ids()[j] == id;
        assert(j == i);
    }

    /// Records a field's report: a field without players is dropped from
    /// the table, any other one holds the new report.
    pub fn update(&mut self, id: ActorId, position: Position, num_figures: usize)
        requires
            old(self).wf(),
        ensures
            final(self).wf(),
            forall|k: ActorIdModel|
                #[trigger] final(self).report_of(k) == if k == id@ {
                    if num_figures == 0 {
                        None
                    } else {
                        Some(ActorInfo { position, num_figures })
                    }
                } else {
                    old(self).report_of(k)
                },
    {
        let found = self.index_of(&id);
        let ghost old_ids = self.ids();
        let ghost old_infos = self.infos();
        if let Some(j) = found {
            proof {
                lemma_remove_unique(old_ids, j as int);
            }
            let _ = self.entries.remove(j);
            assert(self.ids() =~= old_ids.remove(j as int));
            assert(self.infos() =~= old_infos.remove(j as int));
        }
        let ghost mid_ids = self.ids();
        let ghost mid_infos = self.infos();
        assert(!mid_ids.contains(id@));
        if num_figures != 0 {
            proof {
                lemma_push_unique(mid_ids, id@);
            }
            self.entries.push((id, ActorInfo { position, num_figures }));
            assert(self.ids() =~= mid_ids.push(id@));
            assert(self.infos() =~= mid_infos.push(ActorInfo { position, num_figures }));
        }
        assert forall|k: ActorIdModel|
            #[trigger] self.report_of(k) == if k == id@ {
                if num_figures == 0 {
                    None
                } else {
                    Some(ActorInfo { position, num_figures })
                }
            } else {
                old(self).report_of(k)
            } by {
            if k == id@ {
                if num_figures != 0 {
                    self.lemma_report_at(mid_ids.len() as int);
                }
            } else if old(self).ids().contains(k) {
                let a = choose|a: int| 0 <= a < old_ids.len() && old_ids[a] == k;
                old(self).lemma_report_at(a);
                let b = match found {
                    Some(j) => if a < j { a } else { a - 1 },
                    None => a,
                };
                assert(self.ids()[b] == k);
                assert(self.infos()[b] == old_infos[a]);
                self.lemma_report_at(b);
            } else {
                if self.ids().contains(k) {
                    let b = choose|b: int| 0 <= b < self.ids().len() && self.ids()[b] == k;
                    if b < mid_ids.len() {
                        let a = match found {
                            Some(j) => if b < j { b } else { b + 1 },
                            None => b,
                        };
                        assert(old_ids[a] == k);
                    }
                }
            }
        }
    }
}

} // verus!
