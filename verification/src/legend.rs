//! How the categories appear in the plot: caption, colours and marker
//! letters.

use crate::label::{label_name, name_of, GOOD, MODERATE, UNHEALTHY};
use vstd::prelude::*;
use vstd::string::StringExecFns;

verus! {

/// Number of cells along each axis of the decision grid.
pub const GRID_SIZE: usize = 100;

/// A colour by its red, green and blue parts.
#[derive(Clone, Copy, Debug, PartialEq, Eq, Structural)]
pub struct Rgb {
    pub red: u8,
    pub green: u8,
    pub blue: u8,
}

/// Background colour of the grid cells predicted as `label`: a pale green,
/// red or blue for the three categories, white for any other label.
pub open spec fn region_colour_of(label: usize) -> Rgb {
    if label == GOOD {
        Rgb { red: 200, green: 255, blue: 200 }
    } else if label == MODERATE {
        Rgb { red: 255, green: 200, blue: 200 }
    } else if label == UNHEALTHY {
        Rgb { red: 200, green: 200, blue: 255 }
    } else {
        Rgb { red: 255, green: 255, blue: 255 }
    }
}

/// Colour of a point labelled `label`: pure green, red or blue for the three
/// categories, black for any other label.
pub open spec fn point_colour_of(label: usize) -> Rgb {
    if label == GOOD {
        Rgb { red: 0, green: 255, blue: 0 }
    } else if label == MODERATE {
        Rgb { red: 255, green: 0, blue: 0 }
    } else if label == UNHEALTHY {
        Rgb { red: 0, green: 0, blue: 255 }
    } else {
        Rgb { red: 0, green: 0, blue: 0 }
    }
}

/// Letter drawn beside a training point labelled `label`.
pub open spec fn marker_of(label: usize) -> char {
    if label == GOOD {
        'B'
    } else if label == MODERATE {
        'S'
    } else if label == UNHEALTHY {
        'T'
    } else {
        '?'
    }
}

/// The text before the category name in the caption.
pub open spec fn caption_lead() -> Seq<char> {
    seq![
        'S', 'V', 'M', ' ', 'D', 'e', 'c', 'i', 's', 'i', 'o', 'n', ' ', 'B', 'o', 'u', 'n', 'd',
        'a', 'r', 'y', ' ', '(', 'P', 'r', 'e', 'd', 'i', 'c', 't', 'e', 'd', ':', ' ',
    ]
}

/// The caption of a plot whose test point was predicted as `label`.
pub open spec fn caption_of(label: usize) -> Seq<char> {
    caption_lead() + name_of(label) + seq![')']
}

/// Background colour of the grid cells predicted as `label`.
pub fn region_colour(label: usize) -> (colour: Rgb)
    ensures
        colour == region_colour_of(label),
{
    if label == GOOD {
        Rgb { red: 200, green: 255, blue: 200 }
    } else if label == MODERATE {
        Rgb { red: 255, green: 200, blue: 200 }
    } else if label == UNHEALTHY {
        Rgb { red: 200, green: 200, blue: 255 }
    } else {
        Rgb { red: 255, green: 255, blue: 255 }
    }
}

/// Colour of a point labelled `label`.
pub fn point_colour(label: usize) -> (colour: Rgb)
    ensures
        colour == point_colour_of(label),
{
    if label == GOOD {
        Rgb { red: 0, green: 255, blue: 0 }
    } else if label == MODERATE {
        Rgb { red: 255, green: 0, blue: 0 }
    } else if label == UNHEALTHY {
        Rgb { red: 0, green: 0, blue: 255 }
    } else {
        Rgb { red: 0, green: 0, blue: 0 }
    }
}

/// Letter drawn beside a training point labelled `label`.
pub fn marker(label: usize) -> (letter: char)
    ensures
        letter == marker_of(label),
{
    if label == GOOD {
        'B'
    } else if label == MODERATE {
        'S'
    } else if label == UNHEALTHY {
        'T'
    } else {
        '?'
    }
}

/// The caption of a plot whose test point was predicted as `label`.
pub fn plot_caption(label: usize) -> (caption: String)
    ensures
        caption@ == caption_of(label),
{
    proof {
        reveal_strlit("SVM Decision Boundary (Predicted: ");
        reveal_strlit(")");
        assert("SVM Decision Boundary (Predicted: "@ =~= caption_lead());
        assert(")"@ =~= seq![')']);
    }
    let name = label_name(label);
    String::from_str("SVM Decision Boundary (Predicted: ").concat(name.as_str()).concat(")")
}

} // verus!
