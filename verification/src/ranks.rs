use vstd::prelude::*;
use vstd::string::StringExecFns;

verus! {

/// A player's rank, which decides how the player's name is shown.
#[derive(Clone, Copy, Debug, PartialEq, Eq, Structural, Hash)]
pub enum Rank {
    Default,
    Staff,
    Owner,
}

/// What stands before the name of a player of the rank.
pub open spec fn rank_prefix(rank: Rank) -> Seq<char> {
    match rank {
        Rank::Default => Seq::empty(),
        Rank::Staff => "[Staff] "@,
        Rank::Owner => "[Owner] "@,
    }
}

/// The colour of the name of a player of the rank.
pub open spec fn rank_color(rank: Rank) -> Seq<char> {
    match rank {
        Rank::Default => "#162c4f"@,
        Rank::Staff => "#2f803d"@,
        Rank::Owner => "#752916"@,
    }
}

impl Rank {
    /// The name as it is shown for a player of this rank: the rank's tag in
    /// square brackets before it, for every rank but the default.
    pub fn format_name(self, name: String) -> (shown: String)
        ensures
            shown@ == rank_prefix(self) + name@,
    {
        match self {
            Rank::Default => {
                assert(Seq::<char>::empty() + name@ =~= name@);
                name
            },
            Rank::Staff => String::from_str("[Staff] ").concat(name.as_str()),
            Rank::Owner => String::from_str("[Owner] ").concat(name.as_str()),
        }
    }

    /// The colour in which the name is shown, as `#` and six hex digits.
    pub fn color(self) -> (color: &'static str)
        ensures
            color@ == rank_color(self),
    {
        match self {
            Rank::Default => "#162c4f",
            Rank::Staff => "#2f803d",
            Rank::Owner => "#752916",
        }
    }
}

} // verus!
