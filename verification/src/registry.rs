//! The gig registry: keyed persistence and mint-event emission.

use vstd::prelude::*;

use crate::gig::ErrorKind;
use crate::gig::FreelancerView;
use crate::gig::Gig;
use crate::gig::GigView;
use crate::gig::build_gig;
use crate::gig::gig_view_of;
use crate::gig::lengths_consistent;
use crate::gig::sum_percentages;

verus! {

/// One "ownership minted" notification event: a fixed topic tag, the
/// freelancer's name, and their ownership percentage.
#[derive(Debug)]
pub struct MintEvent {
    pub topic: String,
    pub freelancer_name: String,
    pub ownership_percentage: u8,
}

/// Mathematical image of a `MintEvent`.
pub ghost struct MintEventView {
    pub topic: Seq<char>,
    pub freelancer_name: Seq<char>,
    pub ownership_percentage: u8,
}

impl View for MintEvent {
    type V = MintEventView;

    open spec fn view(&self) -> MintEventView {
        MintEventView {
            topic: self.topic@,
            freelancer_name: self.freelancer_name@,
            ownership_percentage: self.ownership_percentage,
        }
    }
}

/// The topic tag carried by every mint event.
pub open spec fn mint_topic() -> Seq<char> {
    "NFTMinted"@
}

/// The events that minting a gig with these freelancer shares emits: one per
/// share, in stored order.
pub open spec fn mint_events_of(freelancers: Seq<FreelancerView>) -> Seq<MintEventView> {
    Seq::new(
        freelancers.len(),
        |i: int|
            MintEventView {
                topic: mint_topic(),
                freelancer_name: freelancers[i].name,
                ownership_percentage: freelancers[i].ownership_percentage,
            },
    )
}

/// The storage map described by a journal of writes: later writes under the
/// same identifier overwrite earlier ones.
pub open spec fn storage_of(writes: Seq<GigView>) -> Map<Seq<char>, GigView>
    decreases writes.len(),
{
    if writes.len() == 0 {
        Map::empty()
    } else {
        storage_of(writes.drop_last()).insert(writes.last().gig_id, writes.last())
    }
}

/// The gig registry. It owns the host-style keyed storage, modelled as the
/// map written so far, and the append-only sink of emitted events.
pub struct FreelanceGigNFT {
    gigs: Vec<Gig>,
    events: Vec<MintEvent>,
}

impl FreelanceGigNFT {
    /// The keyed storage: each identifier maps to the gig last persisted
    /// under it.
    pub closed spec fn storage(&self) -> Map<Seq<char>, GigView> {
        storage_of(self.gigs@.map_values(|g: Gig| g@))
    }

    /// All events emitted so far, oldest first.
    pub closed spec fn events(&self) -> Seq<MintEventView> {
        self.events@.map_values(|e: MintEvent| e@)
    }

    /// Index of the most recent write under `gig_id`, which is the record
    /// the storage map holds for it; `None` when no write used that key.
    fn find_gig(&self, gig_id: &String) -> (r: Option<usize>)
        ensures
            match r {
                Some(i) => {
                    &&& i < self.gigs@.len()
                    &&& self.storage().contains_key(gig_id@)
                    &&& self.gigs@[i as int]@ == self.storage()[gig_id@]
                },
                None => !self.storage().contains_key(gig_id@),
            },
    {
        let ghost views = self.gigs@.map_values(|g: Gig| g@);
        let mut i: usize = self.gigs.len();
        while i > 0
            invariant
                i <= views.len(),
                views == self.gigs@.map_values(|g: Gig| g@),
                forall|k: int| i <= k < views.len() ==> views[k].gig_id != gig_id@,
            decreases i,
        {
            i = i - 1;
            if self.gigs[i].gig_id == *gig_id {
                proof {
                    lemma_storage_last_match(views, gig_id@, i as int);
                }
                return Some(i);
            }
        }
        proof {
            lemma_storage_no_match(views, gig_id@);
        }
        None
    }

    /// A registry with empty storage and no emitted events.
    pub fn new() -> (r: FreelanceGigNFT)
        ensures
            r.storage() == Map::<Seq<char>, GigView>::empty(),
            r.events() == Seq::<MintEventView>::empty(),
    {
        let r = FreelanceGigNFT { gigs: Vec::new(), events: Vec::new() };
        proof {
            assert(r.gigs@.map_values(|g: Gig| g@) =~= Seq::<GigView>::empty());
            assert(r.events@.map_values(|e: MintEvent| e@) =~= Seq::<MintEventView>::empty());
        }
        r
    }

    /// Validates the freelancer inputs, and on success persists the gig they
    /// describe under `gig_id`, overwriting any record previously stored
    /// under the same key. Validation order is fixed: length consistency
    /// first, then the percentage sum; no error path writes anything, and no
    /// path emits an event.
    pub fn create_gig(
        &mut self,
        gig_id: String,
        client_name: String,
        client_address: String,
        freelancer_names: Vec<String>,
        freelancer_wallets: Vec<String>,
        ownership_percentages: Vec<u8>,
    ) -> (r: Result<(), ErrorKind>)
        ensures
            ({
                let names = freelancer_names@.map_values(|s: String| s@);
                let wallets = freelancer_wallets@.map_values(|s: String| s@);
                let percentages = ownership_percentages@;
                &&& (r == Err::<(), ErrorKind>(ErrorKind::DataMismatch) <==> !lengths_consistent(
                    names,
                    wallets,
                    percentages,
                ))
                &&& (r == Err::<(), ErrorKind>(ErrorKind::OwnershipInvalid)
                    <==> lengths_consistent(names, wallets, percentages) && sum_percentages(
                    percentages,
                ) != 100)
                &&& (r == Ok::<(), ErrorKind>(()) <==> lengths_consistent(
                    names,
                    wallets,
                    percentages,
                ) && sum_percentages(percentages) == 100)
                &&& r is Err ==> final(self).storage() == old(self).storage()
                &&& r is Ok ==> final(self).storage() == old(self).storage().insert(
                    gig_id@,
                    gig_view_of(gig_id@, client_name@, client_address@, names, wallets, percentages),
                )
                &&& final(self).events() == old(self).events()
            }),
    {
        let gig = match build_gig(
            gig_id,
            client_name,
            client_address,
            freelancer_names,
            freelancer_wallets,
            ownership_percentages,
        ) {
            Ok(gig) => gig,
            Err(e) => {
                return Err(e);
            },
        };
        let ghost old_views = self.gigs@.map_values(|g: Gig| g@);
        let ghost gv = gig@;
        self.gigs.push(gig);
        proof {
            assert(self.gigs@.map_values(|g: Gig| g@) =~= old_views.push(gv));
            lemma_storage_push(old_views, gv);
        }
        Ok(())
    }

    /// Returns a copy of the gig stored under `gig_id`, or `NotFound` when
    /// no record is stored there. Read-only: neither storage nor the event
    /// sink changes.
    pub fn get_gig(&self, gig_id: &String) -> (r: Result<Gig, ErrorKind>)
        ensures
            self.storage().contains_key(gig_id@) ==> r is Ok && r->Ok_0@ == self.storage()[
                gig_id@
            ],
            !self.storage().contains_key(gig_id@) ==> r == Err::<Gig, ErrorKind>(
                ErrorKind::NotFound,
            ),
    {
        match self.find_gig(gig_id) {
            Some(i) => Ok(self.gigs[i].duplicate()),
            None => Err(ErrorKind::NotFound),
        }
    }

    /// Emits one mint event per freelancer of the gig stored under `gig_id`,
    /// in stored order, or returns `NotFound` without emitting anything.
    /// The stored gig is not changed and not marked: a later call re-emits
    /// the full event set again.
    pub fn mint_nft(&mut self, gig_id: &String) -> (r: Result<(), ErrorKind>)
        ensures
            final(self).storage() == old(self).storage(),
            !old(self).storage().contains_key(gig_id@) ==> r == Err::<(), ErrorKind>(
                ErrorKind::NotFound,
            ) && final(self).events() == old(self).events(),
            old(self).storage().contains_key(gig_id@) ==> r == Ok::<(), ErrorKind>(())
                && final(self).events() == old(self).events() + mint_events_of(
                old(self).storage()[gig_id@].freelancers,
            ),
    {
        let i = match self.find_gig(gig_id) {
            Some(i) => i,
            None => {
                return Err(ErrorKind::NotFound);
            },
        };
        let mut emitted = mint_events(&self.gigs[i]);
        let ghost old_events = self.events@.map_values(|e: MintEvent| e@);
        let ghost emitted_views = emitted@.map_values(|e: MintEvent| e@);
        self.events.append(&mut emitted);
        proof {
            assert(self.events@.map_values(|e: MintEvent| e@) =~= old_events + emitted_views);
        }
        Ok(())
    }

    /// The events emitted so far, oldest first.
    pub fn emitted_events(&self) -> (r: &Vec<MintEvent>)
        ensures
            r@.map_values(|e: MintEvent| e@) == self.events(),
    {
        &self.events
    }
}

/// The events that minting this gig emits: one per freelancer share, in
/// stored order, each carrying the fixed topic tag, the freelancer's name
/// and their ownership percentage.
pub fn mint_events(gig: &Gig) -> (r: Vec<MintEvent>)
    ensures
        r@.map_values(|e: MintEvent| e@) == mint_events_of(gig@.freelancers),
{
    let mut r: Vec<MintEvent> = Vec::new();
    let mut i: usize = 0;
    while i < gig.freelancers.len()
        invariant
            i <= gig.freelancers@.len(),
            r@.len() == i,
            forall|k: int| 0 <= k < i ==> r@[k]@ == mint_events_of(gig@.freelancers)[k],
        decreases gig.freelancers@.len() - i,
    {
        let f = &gig.freelancers[i];
        r.push(
            MintEvent {
                topic: "NFTMinted".to_owned(),
                freelancer_name: f.name.clone(),
                ownership_percentage: f.ownership_percentage,
            },
        );
        i = i + 1;
    }
    proof {
        assert(r@.map_values(|e: MintEvent| e@) =~= mint_events_of(gig@.freelancers));
    }
    r
}

/// Law: a gig created from valid inputs is found under its identifier by a
/// later lookup, and its freelancer sequence matches the inputs pairwise by
/// positional index, in input order.
pub proof fn lemma_create_then_get(
    storage: Map<Seq<char>, GigView>,
    gig_id: Seq<char>,
    client_name: Seq<char>,
    client_address: Seq<char>,
    names: Seq<Seq<char>>,
    wallets: Seq<Seq<char>>,
    percentages: Seq<u8>,
)
    requires
        lengths_consistent(names, wallets, percentages),
        sum_percentages(percentages) == 100,
    ensures
        ({
            let after = storage.insert(
                gig_id,
                gig_view_of(gig_id, client_name, client_address, names, wallets, percentages),
            );
            &&& after.contains_key(gig_id)
            &&& after[gig_id].gig_id == gig_id
            &&& after[gig_id].client_name == client_name
            &&& after[gig_id].client_address == client_address
            &&& after[gig_id].freelancers.len() == names.len()
            &&& forall|i: int|
                0 <= i < names.len() ==> #[trigger] after[gig_id].freelancers[i] == (FreelancerView {
                    name: names[i],
                    wallet: wallets[i],
                    ownership_percentage: percentages[i],
                })
        }),
{
}

/// Law: creation overwrites: writing a second record under an identifier
/// already in use leaves storage exactly as if only the second record had
/// been written, so a lookup returns only the second one.
pub proof fn lemma_overwrite_last_wins(
    storage: Map<Seq<char>, GigView>,
    gig_id: Seq<char>,
    first: GigView,
    second: GigView,
)
    ensures
        storage.insert(gig_id, first).insert(gig_id, second) == storage.insert(gig_id, second),
        storage.insert(gig_id, first).insert(gig_id, second)[gig_id] == second,
{
    assert(storage.insert(gig_id, first).insert(gig_id, second) =~= storage.insert(
        gig_id,
        second,
    ));
}

/// Law: minting a gig emits exactly one event per freelancer share, in
/// stored order, each carrying the fixed topic tag, that freelancer's name
/// and their ownership percentage.
pub proof fn lemma_one_event_per_freelancer(freelancers: Seq<FreelancerView>)
    ensures
        mint_events_of(freelancers).len() == freelancers.len(),
        forall|i: int|
            0 <= i < freelancers.len() ==> #[trigger] mint_events_of(freelancers)[i]
                == (MintEventView {
                topic: mint_topic(),
                freelancer_name: freelancers[i].name,
                ownership_percentage: freelancers[i].ownership_percentage,
            }),
{
}

/// Law: minting is unguarded: a second mint of the same gig appends the full
/// event set once more, so the sink then holds it twice, back to back.
pub proof fn lemma_mint_twice_re_emits(events0: Seq<MintEventView>, freelancers: Seq<FreelancerView>)
    ensures
        ({
            let emitted = mint_events_of(freelancers);
            let after_twice = events0 + emitted + emitted;
            let n0 = events0.len() as int;
            let n = emitted.len() as int;
            &&& after_twice.len() == n0 + 2 * n
            &&& after_twice.subrange(n0, n0 + n) == emitted
            &&& after_twice.subrange(n0 + n, n0 + 2 * n) == emitted
        }),
{
    let emitted = mint_events_of(freelancers);
    let after_twice = events0 + emitted + emitted;
    let n0 = events0.len() as int;
    let n = emitted.len() as int;
    assert(after_twice.subrange(n0, n0 + n) =~= emitted);
    assert(after_twice.subrange(n0 + n, n0 + 2 * n) =~= emitted);
}

/// Writing one more record makes the storage map of the journal gain exactly
/// that record under its own identifier.
proof fn lemma_storage_push(writes: Seq<GigView>, g: GigView)
    ensures
        storage_of(writes.push(g)) == storage_of(writes).insert(g.gig_id, g),
{
    assert(writes.push(g).drop_last() =~= writes);
}

/// When index `j` holds the last write under `id`, the storage map holds
/// that record for `id`.
proof fn lemma_storage_last_match(writes: Seq<GigView>, id: Seq<char>, j: int)
    requires
        0 <= j < writes.len(),
        writes[j].gig_id == id,
        forall|k: int| j < k < writes.len() ==> writes[k].gig_id != id,
    ensures
        storage_of(writes).contains_key(id),
        storage_of(writes)[id] == writes[j],
    decreases writes.len(),
{
    if j == writes.len() - 1 {
    } else {
        lemma_storage_last_match(writes.drop_last(), id, j);
    }
}

/// When no write used `id`, the storage map has no record for it.
proof fn lemma_storage_no_match(writes: Seq<GigView>, id: Seq<char>)
    requires
        forall|k: int| 0 <= k < writes.len() ==> writes[k].gig_id != id,
    ensures
        !storage_of(writes).contains_key(id),
    decreases writes.len(),
{
    if writes.len() > 0 {
        lemma_storage_no_match(writes.drop_last(), id);
    }
}

} // verus!
