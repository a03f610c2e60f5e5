//! One lottery record and its mathematical model.

use vstd::prelude::*;
use crate::address::Address;

verus! {

/// The model of a lottery: every text and identity by its characters.
pub ghost struct LotteryView {
    pub id: u32,
    pub name: Seq<char>,
    pub entry_fee: i128,
    pub max_participants: u32,
    pub participants: Seq<Seq<char>>,
    pub winner: Option<Seq<char>>,
    pub winner_tx_hash: Option<Seq<char>>,
    pub is_completed: bool,
    pub created_at: u64,
    pub creator: Seq<char>,
}

/// The characters of each identity in a list, in order.
pub open spec fn identities(s: Seq<Address>) -> Seq<Seq<char>> {
    s.map_values(|a: Address| a@)
}

pub open spec fn identity_of(a: Option<Address>) -> Option<Seq<char>> {
    match a {
        Some(x) => Some(x@),
        None => None,
    }
}

pub open spec fn text_of(t: Option<String>) -> Option<Seq<char>> {
    match t {
        Some(x) => Some(x@),
        None => None,
    }
}

/// A lottery record.
///
/// `entry_fee` is recorded only; `winner_tx_hash` is reserved and never set
/// by any operation of the registry.
#[derive(Debug)]
pub struct Lottery {
    pub id: u32,
    pub name: String,
    pub entry_fee: i128,
    pub max_participants: u32,
    pub participants: Vec<Address>,
    pub winner: Option<Address>,
    pub winner_tx_hash: Option<String>,
    pub is_completed: bool,
    pub created_at: u64,
    pub creator: Address,
}

impl View for Lottery {
    type V = LotteryView;

    open spec fn view(&self) -> LotteryView {
        LotteryView {
            id: self.id,
            name: self.name@,
            entry_fee: self.entry_fee,
            max_participants: self.max_participants,
            participants: identities(self.participants@),
            winner: identity_of(self.winner),
            winner_tx_hash: text_of(self.winner_tx_hash),
            is_completed: self.is_completed,
            created_at: self.created_at,
            creator: self.creator@,
        }
    }
}

impl LotteryView {
    /// Whether `who` is among the participants.
    pub open spec fn has_participant(self, who: Seq<char>) -> bool {
        self.participants.contains(who)
    }

    /// The same lottery with `who` appended to its participants.
    pub open spec fn with_participant(self, who: Seq<char>) -> LotteryView {
        LotteryView { participants: self.participants.push(who), ..self }
    }

    /// The same lottery, completed with `winner`.
    pub open spec fn completed_with(self, winner: Seq<char>) -> LotteryView {
        LotteryView { is_completed: true, winner: Some(winner), ..self }
    }
}

/// A copy of an identity list, identity by identity.
fn copy_identities(v: &Vec<Address>) -> (r: Vec<Address>)
    ensures
        identities(r@) == identities(v@),
{
    let mut r: Vec<Address> = Vec::new();
    let mut i: usize = 0;
    while i < v.len()
        invariant
            i <= v.len(),
            r@.len() == i,
            forall|k: int| 0 <= k < i ==> r@[k]@ == v@[k]@,
        decreases v.len() - i,
    {
        r.push(v[i].clone());
        i = i + 1;
    }
    assert(identities(r@) =~= identities(v@));
    r
}

fn copy_identity(a: &Option<Address>) -> (r: Option<Address>)
    ensures
        identity_of(r) == identity_of(*a),
{
    match a {
        Some(x) => Some(x.clone()),
        None => None,
    }
}

fn copy_text(t: &Option<String>) -> (r: Option<String>)
    ensures
        text_of(r) == text_of(*t),
{
    match t {
        Some(x) => Some(x.clone()),
        None => None,
    }
}

impl Clone for Lottery {
    fn clone(&self) -> (r: Self)
        ensures
            r@ == self@,
    {
        Lottery {
            id: self.id,
            name: self.name.clone(),
            entry_fee: self.entry_fee,
            max_participants: self.max_participants,
            participants: copy_identities(&self.participants),
            winner: copy_identity(&self.winner),
            winner_tx_hash: copy_text(&self.winner_tx_hash),
            is_completed: self.is_completed,
            created_at: self.created_at,
            creator: self.creator.clone(),
        }
    }
}

/// Whether no identity occurs twice in `v`.
pub fn distinct_identities(v: &Vec<Address>) -> (r: bool)
    ensures
        r == identities(v@).no_duplicates(),
{
    let ghost ids = identities(v@);
    let mut a: usize = 0;
    while a < v.len()
        invariant
            ids == identities(v@),
            a <= v.len(),
            forall|x: int, y: int| 0 <= x < y < a ==> ids[x] != ids[y],
        decreases v.len() - a,
    {
        let mut b: usize = 0;
        while b < a
            invariant
                ids == identities(v@),
                a < v.len(),
                b <= a,
                forall|x: int, y: int| 0 <= x < y < a ==> ids[x] != ids[y],
                forall|x: int| 0 <= x < b ==> ids[x] != ids[a as int],
            decreases a - b,
        {
            if v[b].same_as(&v[a]) {
                assert(ids[b as int] == ids[a as int]);
                return false;
            }
            b = b + 1;
        }
        a = a + 1;
    }
    true
}

} // verus!
