//! Shared data: stories, their metadata, and the rating scale.

use vstd::prelude::*;

use crate::strings::str_eq;

verus! {

/// The rating of a story.
#[derive(Clone, Copy, Debug, Hash, PartialEq, Eq, PartialOrd, Ord, Structural)]
pub enum Rating {
    Explicit,
    Mature,
    Teen,
    General,
    NotRated,
    Unknown,
}

/// The rating a detail label denotes, per the fixed label table.
pub open spec fn spec_rating_from_label(label: Seq<char>) -> Option<Rating> {
    if label == "Explicit"@ {
        Some(Rating::Explicit)
    } else if label == "Mature"@ {
        Some(Rating::Mature)
    } else if label == "Teen And Up Audiences"@ {
        Some(Rating::Teen)
    } else if label == "General Audiences"@ {
        Some(Rating::General)
    } else if label == "Not Rated"@ {
        Some(Rating::NotRated)
    } else {
        None
    }
}

impl Rating {
    /// The rating named by a detail label, if the label is recognised.
    pub fn from_label(label: &str) -> (r: Option<Rating>)
        ensures
            r == spec_rating_from_label(label@),
    {
        if str_eq(label, "Explicit") {
            Some(Rating::Explicit)
        } else if str_eq(label, "Mature") {
            Some(Rating::Mature)
        } else if str_eq(label, "Teen And Up Audiences") {
            Some(Rating::Teen)
        } else if str_eq(label, "General Audiences") {
            Some(Rating::General)
        } else if str_eq(label, "Not Rated") {
            Some(Rating::NotRated)
        } else {
            None
        }
    }

    /// The stable storage name of the rating.
    pub fn as_slug(&self) -> (r: String)
        ensures
            match *self {
                Rating::Explicit => r@ == "explicit"@,
                Rating::Mature => r@ == "mature"@,
                Rating::Teen => r@ == "teen"@,
                Rating::General => r@ == "general"@,
                Rating::NotRated => r@ == "not-rated"@,
                Rating::Unknown => r@ == "unknown"@,
            },
    {
        match self {
            Rating::Explicit => String::from_str("explicit"),
            Rating::Mature => String::from_str("mature"),
            Rating::Teen => String::from_str("teen"),
            Rating::General => String::from_str("general"),
            Rating::NotRated => String::from_str("not-rated"),
            Rating::Unknown => String::from_str("unknown"),
        }
    }
}

/// A named entity a story links to: an author, fandom, warning, pairing,
/// character or freeform tag.
#[derive(Clone, Debug, PartialEq, Eq)]
pub struct Entity {
    pub name: String,
}

/// A stored story, as the read path returns it.
#[derive(Clone, Debug)]
pub struct Story {
    pub id: usize,
    pub name: String,
    pub summary: String,
    pub authors: Vec<Entity>,
    pub origins: Vec<Entity>,
    pub warnings: Vec<Entity>,
    pub pairings: Vec<Entity>,
    pub characters: Vec<Entity>,
    pub generals: Vec<Entity>,
}

/// The identifying parts of a scraped story.
#[derive(Clone, Debug, PartialEq, Eq)]
pub struct Info {
    pub name: String,
    pub authors: Vec<String>,
    pub summary: String,
}

/// The tag metadata of a scraped story.
#[derive(Clone, Debug, PartialEq, Eq)]
pub struct Meta {
    pub rating: Rating,
    pub categories: Vec<String>,
    pub origins: Vec<String>,
    pub warnings: Vec<String>,
    pub pairings: Vec<String>,
    pub characters: Vec<String>,
    pub generals: Vec<String>,
}

} // verus!
