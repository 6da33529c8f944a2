use vstd::prelude::*;

verus! {

broadcast use vstd::string::group_string_axioms;

/// The words shown for each rating tier of the final score.
pub struct RatingLabels {
    pub excellent: String,
    pub very_good: String,
    pub good: String,
    pub average: String,
    pub below_average: String,
}

impl Default for RatingLabels {
    fn default() -> (labels: Self)
        ensures
            labels.excellent@ == "Excellent"@,
            labels.very_good@ == "Very Good"@,
            labels.good@ == "Good"@,
            labels.average@ == "Average"@,
            labels.below_average@ == "Below Average"@,
    {
        RatingLabels {
            excellent: "Excellent".to_string(),
            very_good: "Very Good".to_string(),
            good: "Good".to_string(),
            average: "Average".to_string(),
            below_average: "Below Average".to_string(),
        }
    }
}

/// The tiers of the final rating, from best to worst.
#[derive(PartialEq, Eq, Structural, Debug, Clone, Copy)]
pub enum RatingTier {
    Excellent,
    VeryGood,
    Good,
    Average,
    BelowAverage,
}

/// The tier of a total score, given which of the four thresholds
/// (excellent, very good, good, average) the score reaches: the first one
/// reached, in that order, and below average when it reaches none.
pub open spec fn tier_spec(
    reaches_excellent: bool,
    reaches_very_good: bool,
    reaches_good: bool,
    reaches_average: bool,
) -> RatingTier {
    if reaches_excellent {
        RatingTier::Excellent
    } else if reaches_very_good {
        RatingTier::VeryGood
    } else if reaches_good {
        RatingTier::Good
    } else if reaches_average {
        RatingTier::Average
    } else {
        RatingTier::BelowAverage
    }
}

/// Picks the rating tier from which thresholds the total score reaches.
pub fn rating_tier(
    reaches_excellent: bool,
    reaches_very_good: bool,
    reaches_good: bool,
    reaches_average: bool,
) -> (tier: RatingTier)
    ensures
        tier == tier_spec(reaches_excellent, reaches_very_good, reaches_good, reaches_average),
{
    if reaches_excellent {
        RatingTier::Excellent
    } else if reaches_very_good {
        RatingTier::VeryGood
    } else if reaches_good {
        RatingTier::Good
    } else if reaches_average {
        RatingTier::Average
    } else {
        RatingTier::BelowAverage
    }
}

/// The rank of a tier: 4 for excellent down to 0 for below average.
pub open spec fn tier_rank(tier: RatingTier) -> int {
    match tier {
        RatingTier::Excellent => 4,
        RatingTier::VeryGood => 3,
        RatingTier::Good => 2,
        RatingTier::Average => 1,
        RatingTier::BelowAverage => 0,
    }
}

/// A score that reaches every threshold another score reaches never gets a
/// lower tier than that score.
pub proof fn lemma_tier_monotone(
    excellent: bool,
    very_good: bool,
    good: bool,
    average: bool,
    higher_excellent: bool,
    higher_very_good: bool,
    higher_good: bool,
    higher_average: bool,
)
    requires
        excellent ==> higher_excellent,
        very_good ==> higher_very_good,
        good ==> higher_good,
        average ==> higher_average,
    ensures
        tier_rank(tier_spec(excellent, very_good, good, average)) <= tier_rank(
            tier_spec(higher_excellent, higher_very_good, higher_good, higher_average),
        ),
{
}

impl RatingLabels {
    /// The label of `tier`.
    pub open spec fn label_spec(&self, tier: RatingTier) -> Seq<char> {
        match tier {
            RatingTier::Excellent => self.excellent@,
            RatingTier::VeryGood => self.very_good@,
            RatingTier::Good => self.good@,
            RatingTier::Average => self.average@,
            RatingTier::BelowAverage => self.below_average@,
        }
    }

    /// Each tier is labelled with its own field: excellent, very good, good,
    /// average and below average, in that order.
    pub proof fn lemma_label_is_own_field(&self)
        ensures
            self.label_spec(RatingTier::Excellent) == self.excellent@,
            self.label_spec(RatingTier::VeryGood) == self.very_good@,
            self.label_spec(RatingTier::Good) == self.good@,
            self.label_spec(RatingTier::Average) == self.average@,
            self.label_spec(RatingTier::BelowAverage) == self.below_average@,
    {
    }

    /// The label shown for `tier`.
    pub fn label(&self, tier: RatingTier) -> (label: String)
        ensures
            label@ == self.label_spec(tier),
            tier == RatingTier::Excellent ==> label@ == self.excellent@,
            tier == RatingTier::VeryGood ==> label@ == self.very_good@,
            tier == RatingTier::Good ==> label@ == self.good@,
            tier == RatingTier::Average ==> label@ == self.average@,
            tier == RatingTier::BelowAverage ==> label@ == self.below_average@,
    {
        match tier {
            RatingTier::Excellent => self.excellent.clone(),
            RatingTier::VeryGood => self.very_good.clone(),
            RatingTier::Good => self.good.clone(),
            RatingTier::Average => self.average.clone(),
            RatingTier::BelowAverage => self.below_average.clone(),
        }
    }
}

} // verus!
