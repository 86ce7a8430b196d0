//! A consistent, typed snapshot of the preferences a conversion reads.
use vstd::prelude::*;
use crate::prefs::{PrefName, Preferences};
use crate::text::eq_str;

verus! {

/// The speech conventions the rule repository holds.
#[derive(Clone, Copy, Debug, PartialEq, Eq, Structural)]
pub enum Style {
    ClearSpeak,
    SimpleSpeak,
}

#[derive(Clone, Copy, Debug, PartialEq, Eq, Structural)]
pub enum Verbosity {
    Terse,
    Medium,
    Verbose,
}

/// How a vertical bar between two expressions is read.
#[derive(Clone, Copy, Debug, PartialEq, Eq, Structural)]
pub enum VerticalLine {
    Auto,
    Divides,
    Given,
    SuchThat,
}

#[derive(Clone, Copy, Debug, PartialEq, Eq, Structural)]
pub enum Ellipses {
    Auto,
    AndSoOn,
}

#[derive(Clone, Copy, Debug, PartialEq, Eq, Structural)]
pub enum MultSymbolX {
    Auto,
    By,
    Cross,
}

#[derive(Clone, Copy, Debug, PartialEq, Eq, Structural)]
pub enum ImpliedTimes {
    Auto,
    More,
    Silent,
}

#[derive(Clone, Copy, Debug, PartialEq, Eq, Structural)]
pub struct Settings {
    pub style: Style,
    pub verbosity: Verbosity,
    pub vertical_line: VerticalLine,
    pub ellipses: Ellipses,
    pub mult_x: MultSymbolX,
    pub implied_times: ImpliedTimes,
}

pub open spec fn verbosity_of(v: Seq<char>) -> Verbosity {
    if v == "Terse"@ {
        Verbosity::Terse
    } else if v == "Verbose"@ {
        Verbosity::Verbose
    } else {
        Verbosity::Medium
    }
}

pub open spec fn vertical_line_of(v: Seq<char>) -> VerticalLine {
    if v == "Divides"@ {
        VerticalLine::Divides
    } else if v == "Given"@ {
        VerticalLine::Given
    } else if v == "SuchThat"@ {
        VerticalLine::SuchThat
    } else {
        VerticalLine::Auto
    }
}

pub open spec fn ellipses_of(v: Seq<char>) -> Ellipses {
    if v == "AndSoOn"@ {
        Ellipses::AndSoOn
    } else {
        Ellipses::Auto
    }
}

pub open spec fn mult_x_of(v: Seq<char>) -> MultSymbolX {
    if v == "By"@ {
        MultSymbolX::By
    } else if v == "Cross"@ {
        MultSymbolX::Cross
    } else {
        MultSymbolX::Auto
    }
}

pub open spec fn implied_times_of(v: Seq<char>) -> ImpliedTimes {
    if v == "MoreImpliedTimes"@ {
        ImpliedTimes::More
    } else if v == "None"@ {
        ImpliedTimes::Silent
    } else {
        ImpliedTimes::Auto
    }
}

/// The snapshot for a resolved style: the ClearSpeak options count only under ClearSpeak.
pub open spec fn settings_of(p: Preferences, style: Style) -> Settings {
    let clear = style == Style::ClearSpeak;
    Settings {
        style,
        verbosity: verbosity_of(p.value(PrefName::Verbosity)),
        vertical_line: if clear { vertical_line_of(p.value(PrefName::VerticalLine)) } else { VerticalLine::Auto },
        ellipses: if clear { ellipses_of(p.value(PrefName::Ellipses)) } else { Ellipses::Auto },
        mult_x: if clear { mult_x_of(p.value(PrefName::MultSymbolX)) } else { MultSymbolX::Auto },
        implied_times: if clear { implied_times_of(p.value(PrefName::ImpliedTimes)) } else { ImpliedTimes::Auto },
    }
}

/// Takes a snapshot of the preferences for the given style.
pub fn snapshot(p: &Preferences, style: Style) -> (r: Settings)
    requires
        p.wf(),
    ensures
        r == settings_of(*p, style),
{
    let clear = style == Style::ClearSpeak;
    let v = p.read(PrefName::Verbosity);
    let verbosity = if eq_str(&v, "Terse") {
        Verbosity::Terse
    } else if eq_str(&v, "Verbose") {
        Verbosity::Verbose
    } else {
        Verbosity::Medium
    };
    let v = p.read(PrefName::VerticalLine);
    let vertical_line = if !clear {
        VerticalLine::Auto
    } else if eq_str(&v, "Divides") {
        VerticalLine::Divides
    } else if eq_str(&v, "Given") {
        VerticalLine::Given
    } else if eq_str(&v, "SuchThat") {
        VerticalLine::SuchThat
    } else {
        VerticalLine::Auto
    };
    let v = p.read(PrefName::Ellipses);
    let ellipses = if clear && eq_str(&v, "AndSoOn") {
        Ellipses::AndSoOn
    } else {
        Ellipses::Auto
    };
    let v = p.read(PrefName::MultSymbolX);
    let mult_x = if !clear {
        MultSymbolX::Auto
    } else if eq_str(&v, "By") {
        MultSymbolX::By
    } else if eq_str(&v, "Cross") {
        MultSymbolX::Cross
    } else {
        MultSymbolX::Auto
    };
    let v = p.read(PrefName::ImpliedTimes);
    let implied_times = if !clear {
        ImpliedTimes::Auto
    } else if eq_str(&v, "MoreImpliedTimes") {
        ImpliedTimes::More
    } else if eq_str(&v, "None") {
        ImpliedTimes::Silent
    } else {
        ImpliedTimes::Auto
    };
    Settings { style, verbosity, vertical_line, ellipses, mult_x, implied_times }
}

} // verus!
