//! Viewer ranks, earned by points.
use vstd::prelude::*;

verus! {

/// The ranks a viewer can hold, from the lowest up.
#[derive(PartialEq, Eq, Structural, Debug, Clone, Copy)]
pub enum RankVariety {
    Common,
    Uncommon,
    CarnivorousGarden,
    VeganGarden,
    SmoothedMeat,
    SmoothedVeganMeat,
    BinChicken,
    DirtyBinChicken,
    Edged,
    Sour,
    Creamed,
    Explosive,
    Trackmaniac,
    Fimsh,
    LongFimsh,
    Nean,
    Holee,
}

/// Every rank, from the lowest up.
pub open spec fn rank_list() -> Seq<RankVariety> {
    seq![
        RankVariety::Common,
        RankVariety::Uncommon,
        RankVariety::CarnivorousGarden,
        RankVariety::VeganGarden,
        RankVariety::SmoothedMeat,
        RankVariety::SmoothedVeganMeat,
        RankVariety::BinChicken,
        RankVariety::DirtyBinChicken,
        RankVariety::Edged,
        RankVariety::Sour,
        RankVariety::Creamed,
        RankVariety::Explosive,
        RankVariety::Trackmaniac,
        RankVariety::Fimsh,
        RankVariety::LongFimsh,
        RankVariety::Nean,
        RankVariety::Holee,
    ]
}

impl RankVariety {
    /// The fewest points that hold the rank.
    pub open spec fn spec_threshold(self) -> u32 {
        match self {
            RankVariety::Common => 0,
            RankVariety::Uncommon => 5,
            RankVariety::CarnivorousGarden => 10,
            RankVariety::VeganGarden => 20,
            RankVariety::SmoothedMeat => 30,
            RankVariety::SmoothedVeganMeat => 50,
            RankVariety::BinChicken => 70,
            RankVariety::DirtyBinChicken => 90,
            RankVariety::Edged => 110,
            RankVariety::Sour => 120,
            RankVariety::Creamed => 130,
            RankVariety::Explosive => 140,
            RankVariety::Trackmaniac => 170,
            RankVariety::Fimsh => 200,
            RankVariety::LongFimsh => 250,
            RankVariety::Nean => 300,
            RankVariety::Holee => 400,
        }
    }

    /// The rank's name as shown in chat.
    pub open spec fn spec_label(self) -> Seq<char> {
        match self {
            RankVariety::Common => "common"@,
            RankVariety::Uncommon => "uncommon"@,
            RankVariety::CarnivorousGarden => "carnivorous garden"@,
            RankVariety::VeganGarden => "vegan garden"@,
            RankVariety::SmoothedMeat => "smoothed meat"@,
            RankVariety::SmoothedVeganMeat => "smoothed vegan meat"@,
            RankVariety::BinChicken => "Bin Chicken"@,
            RankVariety::DirtyBinChicken => "Dirty Bin Chicken"@,
            RankVariety::Edged => "Edged"@,
            RankVariety::Sour => "Sour"@,
            RankVariety::Creamed => "Creamed"@,
            RankVariety::Explosive => "Explosive"@,
            RankVariety::Trackmaniac => "Trackmaniac"@,
            RankVariety::Fimsh => "fimsh"@,
            RankVariety::LongFimsh => "Long fimsh"@,
            RankVariety::Nean => "Nean"@,
            RankVariety::Holee => "HOLEE"@,
        }
    }

    /// The rank of a viewer with `points` points: the last rank in order whose
    /// threshold the points reach.
    pub fn for_points(points: u32) -> (r: RankVariety)
        ensures
            r.spec_threshold() <= points,
            forall|i: int|
                0 <= i < rank_list().len() && #[trigger] rank_list()[i].spec_threshold() <= points
                    ==> rank_list()[i].spec_threshold() <= r.spec_threshold(),
    {
        if points >= 400 {
            RankVariety::Holee
        } else if points >= 300 {
            RankVariety::Nean
        } else if points >= 250 {
            RankVariety::LongFimsh
        } else if points >= 200 {
            RankVariety::Fimsh
        } else if points >= 170 {
            RankVariety::Trackmaniac
        } else if points >= 140 {
            RankVariety::Explosive
        } else if points >= 130 {
            RankVariety::Creamed
        } else if points >= 120 {
            RankVariety::Sour
        } else if points >= 110 {
            RankVariety::Edged
        } else if points >= 90 {
            RankVariety::DirtyBinChicken
        } else if points >= 70 {
            RankVariety::BinChicken
        } else if points >= 50 {
            RankVariety::SmoothedVeganMeat
        } else if points >= 30 {
            RankVariety::SmoothedMeat
        } else if points >= 20 {
            RankVariety::VeganGarden
        } else if points >= 10 {
            RankVariety::CarnivorousGarden
        } else if points >= 5 {
            RankVariety::Uncommon
        } else {
            RankVariety::Common
        }
    }

    /// The rank's name as shown in chat.
    pub fn label(&self) -> (r: &'static str)
        ensures
            r@ == self.spec_label(),
    {
        match self {
            RankVariety::Common => "common",
            RankVariety::Uncommon => "uncommon",
            RankVariety::CarnivorousGarden => "carnivorous garden",
            RankVariety::VeganGarden => "vegan garden",
            RankVariety::SmoothedMeat => "smoothed meat",
            RankVariety::SmoothedVeganMeat => "smoothed vegan meat",
            RankVariety::BinChicken => "Bin Chicken",
            RankVariety::DirtyBinChicken => "Dirty Bin Chicken",
            RankVariety::Edged => "Edged",
            RankVariety::Sour => "Sour",
            RankVariety::Creamed => "Creamed",
            RankVariety::Explosive => "Explosive",
            RankVariety::Trackmaniac => "Trackmaniac",
            RankVariety::Fimsh => "fimsh",
            RankVariety::LongFimsh => "Long fimsh",
            RankVariety::Nean => "Nean",
            RankVariety::Holee => "HOLEE",
        }
    }

    /// Every rank, from the lowest up.
    pub fn all_variants() -> (r: Vec<RankVariety>)
        ensures
            r@ == rank_list(),
    {
        let r = vec![
            RankVariety::Common,
            RankVariety::Uncommon,
            RankVariety::CarnivorousGarden,
            RankVariety::VeganGarden,
            RankVariety::SmoothedMeat,
            RankVariety::SmoothedVeganMeat,
            RankVariety::BinChicken,
            RankVariety::DirtyBinChicken,
            RankVariety::Edged,
            RankVariety::Sour,
            RankVariety::Creamed,
            RankVariety::Explosive,
            RankVariety::Trackmaniac,
            RankVariety::Fimsh,
            RankVariety::LongFimsh,
            RankVariety::Nean,
            RankVariety::Holee,
        ];
        assert(r@ == rank_list());
        r
    }
}

} // verus!
