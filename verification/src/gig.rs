//! Gig records and their validated construction.

use vstd::prelude::*;

verus! {

/// One party's fractional stake in a gig: a display name, an opaque wallet
/// address carried as a payload, and an ownership percentage.
#[derive(Debug)]
pub struct Freelancer {
    pub name: String,
    pub wallet: String,
    pub ownership_percentage: u8,
}

/// Mathematical image of a `Freelancer`.
pub ghost struct FreelancerView {
    pub name: Seq<char>,
    pub wallet: Seq<char>,
    pub ownership_percentage: u8,
}

impl View for Freelancer {
    type V = FreelancerView;

    open spec fn view(&self) -> FreelancerView {
        FreelancerView {
            name: self.name@,
            wallet: self.wallet@,
            ownership_percentage: self.ownership_percentage,
        }
    }
}

/// A client-commissioned work engagement and its ownership split, keyed by
/// `gig_id` in the registry's storage.
#[derive(Debug)]
pub struct Gig {
    pub gig_id: String,
    pub client_name: String,
    pub client_address: String,
    pub freelancers: Vec<Freelancer>,
}

/// Mathematical image of a `Gig`.
pub ghost struct GigView {
    pub gig_id: Seq<char>,
    pub client_name: Seq<char>,
    pub client_address: Seq<char>,
    pub freelancers: Seq<FreelancerView>,
}

impl View for Gig {
    type V = GigView;

    open spec fn view(&self) -> GigView {
        GigView {
            gig_id: self.gig_id@,
            client_name: self.client_name@,
            client_address: self.client_address@,
            freelancers: self.freelancers@.map_values(|f: Freelancer| f@),
        }
    }
}

/// The closed set of failure outcomes.
#[derive(Clone, Copy, PartialEq, Eq, Structural, Debug)]
pub enum ErrorKind {
    /// The three freelancer-describing input sequences have unequal lengths.
    DataMismatch,
    /// The ownership percentages do not sum to exactly 100.
    OwnershipInvalid,
    /// No gig is stored under the requested identifier.
    NotFound,
}

/// Sum of a sequence of ownership percentages, as an unbounded integer.
pub open spec fn sum_percentages(s: Seq<u8>) -> int
    decreases s.len(),
{
    if s.len() == 0 {
        0
    } else {
        sum_percentages(s.drop_last()) + s.last()
    }
}

/// Whether the three freelancer-describing sequences have one common length.
pub open spec fn lengths_consistent(
    names: Seq<Seq<char>>,
    wallets: Seq<Seq<char>>,
    percentages: Seq<u8>,
) -> bool {
    names.len() == wallets.len() && names.len() == percentages.len()
}

/// The freelancer sequence built pairwise by positional index, preserving
/// input order.
pub open spec fn freelancers_of(
    names: Seq<Seq<char>>,
    wallets: Seq<Seq<char>>,
    percentages: Seq<u8>,
) -> Seq<FreelancerView> {
    Seq::new(
        names.len(),
        |i: int|
            FreelancerView {
                name: names[i],
                wallet: wallets[i],
                ownership_percentage: percentages[i],
            },
    )
}

/// The gig record that a successful creation persists.
pub open spec fn gig_view_of(
    gig_id: Seq<char>,
    client_name: Seq<char>,
    client_address: Seq<char>,
    names: Seq<Seq<char>>,
    wallets: Seq<Seq<char>>,
    percentages: Seq<u8>,
) -> GigView {
    GigView {
        gig_id: gig_id,
        client_name: client_name,
        client_address: client_address,
        freelancers: freelancers_of(names, wallets, percentages),
    }
}

impl Gig {
    /// An owned copy of this gig with the same mathematical value.
    pub fn duplicate(&self) -> (g: Gig)
        ensures
            g@ == self@,
    {
        let mut freelancers: Vec<Freelancer> = Vec::new();
        let mut i: usize = 0;
        while i < self.freelancers.len()
            invariant
                i <= self.freelancers@.len(),
                freelancers@.len() == i,
                forall|k: int| 0 <= k < i ==> freelancers@[k]@ == self.freelancers@[k]@,
            decreases self.freelancers@.len() - i,
        {
            let f = &self.freelancers[i];
            freelancers.push(
                Freelancer {
                    name: f.name.clone(),
                    wallet: f.wallet.clone(),
                    ownership_percentage: f.ownership_percentage,
                },
            );
            i = i + 1;
        }
        let g = Gig {
            gig_id: self.gig_id.clone(),
            client_name: self.client_name.clone(),
            client_address: self.client_address.clone(),
            freelancers,
        };
        proof {
            assert(g@.freelancers =~= self@.freelancers);
        }
        g
    }
}

/// Validates the freelancer inputs and constructs the gig record they
/// describe. Length consistency is checked first; only then is the
/// percentage sum checked; nothing is built on either failure.
pub fn build_gig(
    gig_id: String,
    client_name: String,
    client_address: String,
    freelancer_names: Vec<String>,
    freelancer_wallets: Vec<String>,
    ownership_percentages: Vec<u8>,
) -> (r: Result<Gig, ErrorKind>)
    ensures
        ({
            let names = freelancer_names@.map_values(|s: String| s@);
            let wallets = freelancer_wallets@.map_values(|s: String| s@);
            let percentages = ownership_percentages@;
            &&& (r == Err::<Gig, ErrorKind>(ErrorKind::DataMismatch) <==> !lengths_consistent(
                names,
                wallets,
                percentages,
            ))
            &&& (r == Err::<Gig, ErrorKind>(ErrorKind::OwnershipInvalid) <==> lengths_consistent(
                names,
                wallets,
                percentages,
            ) && sum_percentages(percentages) != 100)
            &&& (r is Ok <==> lengths_consistent(names, wallets, percentages)
                && sum_percentages(percentages) == 100)
            &&& r is Ok ==> r->Ok_0@ == gig_view_of(
                gig_id@,
                client_name@,
                client_address@,
                names,
                wallets,
                percentages,
            )
        }),
{
    if freelancer_names.len() != freelancer_wallets.len() || freelancer_names.len()
        != ownership_percentages.len() {
        return Err(ErrorKind::DataMismatch);
    }

    let ghost pcts: Seq<u8> = ownership_percentages@;
    let mut total: u128 = 0;
    let mut i: usize = 0;
    while i < ownership_percentages.len()
        invariant
            i <= pcts.len(),
            pcts == ownership_percentages@,
            total == sum_percentages(pcts.take(i as int)),
            total <= 255 * i,
        decreases pcts.len() - i,
    {
        let p = ownership_percentages[i];
        proof {
            assert(pcts.take(i + 1).drop_last() =~= pcts.take(i as int));
            assert(pcts.take(i + 1).last() == pcts[i as int]);
        }
        total = total + p as u128;
        i = i + 1;
    }
    proof {
        assert(pcts.take(pcts.len() as int) =~= pcts);
    }
    if total != 100 {
        return Err(ErrorKind::OwnershipInvalid);
    }

    let mut freelancers: Vec<Freelancer> = Vec::new();
    let mut i: usize = 0;
    while i < freelancer_names.len()
        invariant
            i <= freelancer_names@.len(),
            freelancer_names@.len() == freelancer_wallets@.len(),
            freelancer_names@.len() == ownership_percentages@.len(),
            freelancers@.len() == i,
            forall|k: int|
                0 <= k < i ==> freelancers@[k]@ == (FreelancerView {
                    name: freelancer_names@[k]@,
                    wallet: freelancer_wallets@[k]@,
                    ownership_percentage: ownership_percentages@[k],
                }),
        decreases freelancer_names@.len() - i,
    {
        freelancers.push(
            Freelancer {
                name: freelancer_names[i].clone(),
                wallet: freelancer_wallets[i].clone(),
                ownership_percentage: ownership_percentages[i],
            },
        );
        i = i + 1;
    }

    let g = Gig { gig_id, client_name, client_address, freelancers };
    proof {
        let names = freelancer_names@.map_values(|s: String| s@);
        let wallets = freelancer_wallets@.map_values(|s: String| s@);
        assert(g@.freelancers =~= freelancers_of(names, wallets, ownership_percentages@));
    }
    Ok(g)
}

} // verus!
