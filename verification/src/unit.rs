//! Units of numeric values: the CSS units by name, and a carrier for any
//! other unit.
use crate::text::{int_text, is_str, push_int, push_str, string_of};
use vstd::prelude::*;

verus! {

/// The unit of a number. `Unitless` is the unit of a plain number; `Unknown`
/// carries a unit that the table does not list, with its exponent.
#[derive(Clone, Debug, PartialEq, Eq)]
pub enum Unit {
    Em,
    Ex,
    Ch,
    Rem,
    Vw,
    Vh,
    Vmin,
    Vmax,
    Cm,
    Mm,
    Q,
    In,
    Pt,
    Pc,
    Px,
    Deg,
    Grad,
    Rad,
    Turn,
    S,
    Ms,
    Hz,
    Khz,
    Dpi,
    Dpcm,
    Dppx,
    Percent,
    Fr,
    Unitless,
    Unknown(String, i32),
}

/// What a [`Unit`] stands for: a unit of the table, or the name and
/// exponent of another one.
pub enum UnitView {
    Known(Unit),
    Unknown(Seq<char>, int),
}

impl View for Unit {
    type V = UnitView;

    open spec fn view(&self) -> UnitView {
        match self {
            Unit::Unknown(name, exponent) => UnitView::Unknown(name@, *exponent as int),
            known => UnitView::Known(*known),
        }
    }
}

impl UnitView {
    /// The unit of a plain number.
    pub open spec fn is_none(self) -> bool {
        self == UnitView::Known(Unit::Unitless)
    }

    /// The unit as it is written behind a number.
    pub open spec fn token(self) -> Seq<char> {
        match self {
            UnitView::Unknown(name, exponent) => if exponent == 1 {
                name
            } else {
                name + seq!['^'] + int_text(exponent)
            },
            UnitView::Known(u) => known_token(u)@,
        }
    }
}

/// The token of a unit of the table; empty for `Unitless`.
pub open spec fn known_token(u: Unit) -> &'static str {
    match u {
        Unit::Em => "em",
        Unit::Ex => "ex",
        Unit::Ch => "ch",
        Unit::Rem => "rem",
        Unit::Vw => "vw",
        Unit::Vh => "vh",
        Unit::Vmin => "vmin",
        Unit::Vmax => "vmax",
        Unit::Cm => "cm",
        Unit::Mm => "mm",
        Unit::Q => "q",
        Unit::In => "in",
        Unit::Pt => "pt",
        Unit::Pc => "pc",
        Unit::Px => "px",
        Unit::Deg => "deg",
        Unit::Grad => "grad",
        Unit::Rad => "rad",
        Unit::Turn => "turn",
        Unit::S => "s",
        Unit::Ms => "ms",
        Unit::Hz => "Hz",
        Unit::Khz => "kHz",
        Unit::Dpi => "dpi",
        Unit::Dpcm => "dpcm",
        Unit::Dppx => "dppx",
        Unit::Percent => "%",
        Unit::Fr => "fr",
        Unit::Unitless => "",
        Unit::Unknown(_, _) => "",
    }
}

/// The unit that a token of the table names.
pub open spec fn unit_of_token(t: Seq<char>) -> Option<Unit> {
    if t == "em"@ {
        Some(Unit::Em)
    } else if t == "ex"@ {
        Some(Unit::Ex)
    } else if t == "ch"@ {
        Some(Unit::Ch)
    } else if t == "rem"@ {
        Some(Unit::Rem)
    } else if t == "vw"@ {
        Some(Unit::Vw)
    } else if t == "vh"@ {
        Some(Unit::Vh)
    } else if t == "vmin"@ {
        Some(Unit::Vmin)
    } else if t == "vmax"@ {
        Some(Unit::Vmax)
    } else if t == "cm"@ {
        Some(Unit::Cm)
    } else if t == "mm"@ {
        Some(Unit::Mm)
    } else if t == "q"@ {
        Some(Unit::Q)
    } else if t == "in"@ {
        Some(Unit::In)
    } else if t == "pt"@ {
        Some(Unit::Pt)
    } else if t == "pc"@ {
        Some(Unit::Pc)
    } else if t == "px"@ {
        Some(Unit::Px)
    } else if t == "deg"@ {
        Some(Unit::Deg)
    } else if t == "grad"@ {
        Some(Unit::Grad)
    } else if t == "rad"@ {
        Some(Unit::Rad)
    } else if t == "turn"@ {
        Some(Unit::Turn)
    } else if t == "s"@ {
        Some(Unit::S)
    } else if t == "ms"@ {
        Some(Unit::Ms)
    } else if t == "Hz"@ {
        Some(Unit::Hz)
    } else if t == "kHz"@ {
        Some(Unit::Khz)
    } else if t == "dpi"@ {
        Some(Unit::Dpi)
    } else if t == "dpcm"@ {
        Some(Unit::Dpcm)
    } else if t == "dppx"@ {
        Some(Unit::Dppx)
    } else if t == "%"@ {
        Some(Unit::Percent)
    } else if t == "fr"@ {
        Some(Unit::Fr)
    } else {
        None
    }
}

/// The unit that a token behind a number stands for: none for the empty
/// token, the unit of the table that it names, or else an unknown unit of
/// that name.
pub open spec fn unit_for(t: Seq<char>) -> UnitView {
    if t.len() == 0 {
        UnitView::Known(Unit::Unitless)
    } else {
        match unit_of_token(t) {
            Some(u) => UnitView::Known(u),
            None => UnitView::Unknown(t, 1),
        }
    }
}

impl Unit {
    /// The token of a unit of the table.
    fn known_str(&self) -> (s: &'static str)
        ensures
            s == known_token(*self),
    {
        match self {
            Unit::Em => "em",
            Unit::Ex => "ex",
            Unit::Ch => "ch",
            Unit::Rem => "rem",
            Unit::Vw => "vw",
            Unit::Vh => "vh",
            Unit::Vmin => "vmin",
            Unit::Vmax => "vmax",
            Unit::Cm => "cm",
            Unit::Mm => "mm",
            Unit::Q => "q",
            Unit::In => "in",
            Unit::Pt => "pt",
            Unit::Pc => "pc",
            Unit::Px => "px",
            Unit::Deg => "deg",
            Unit::Grad => "grad",
            Unit::Rad => "rad",
            Unit::Turn => "turn",
            Unit::S => "s",
            Unit::Ms => "ms",
            Unit::Hz => "Hz",
            Unit::Khz => "kHz",
            Unit::Dpi => "dpi",
            Unit::Dpcm => "dpcm",
            Unit::Dppx => "dppx",
            Unit::Percent => "%",
            Unit::Fr => "fr",
            Unit::Unitless => "",
            Unit::Unknown(_, _) => "",
        }
    }

    /// Appends the unit's token to `out`.
    pub fn push_token(&self, out: &mut Vec<char>)
        ensures
            final(out)@ == old(out)@ + self@.token(),
    {
        match self {
            Unit::Unknown(name, exponent) => {
                push_str(out, name.as_str());
                if *exponent != 1 {
                    out.push('^');
                    push_int(out, *exponent as i128);
                }
            },
            known => {
                push_str(out, known.known_str());
            },
        }
    }

    /// The unit as it is written behind a number.
    pub fn token(&self) -> (s: String)
        ensures
            s@ == self@.token(),
    {
        let mut out: Vec<char> = Vec::new();
        self.push_token(&mut out);
        string_of(&out)
    }

    /// Whether this is the unit of a plain number.
    pub fn is_none(&self) -> (b: bool)
        ensures
            b == self@.is_none(),
    {
        match self {
            Unit::Unitless => true,
            _ => false,
        }
    }

    /// Whether two units are the same unit.
    pub fn same(&self, other: &Unit) -> (b: bool)
        ensures
            b == (self@ == other@),
    {
        match (self, other) {
            (Unit::Unknown(a, e), Unit::Unknown(b, f)) => {
                *e == *f && *a == *b
            },
            (Unit::Unknown(_, _), _) => false,
            (_, Unit::Unknown(_, _)) => false,
            (a, b) => a.index() == b.index(),
        }
    }

    /// The place of the unit in the table.
    pub fn index(&self) -> (i: u8)
        ensures
            i == unit_index(*self),
    {
        match self {
            Unit::Em => 0,
            Unit::Ex => 1,
            Unit::Ch => 2,
            Unit::Rem => 3,
            Unit::Vw => 4,
            Unit::Vh => 5,
            Unit::Vmin => 6,
            Unit::Vmax => 7,
            Unit::Cm => 8,
            Unit::Mm => 9,
            Unit::Q => 10,
            Unit::In => 11,
            Unit::Pt => 12,
            Unit::Pc => 13,
            Unit::Px => 14,
            Unit::Deg => 15,
            Unit::Grad => 16,
            Unit::Rad => 17,
            Unit::Turn => 18,
            Unit::S => 19,
            Unit::Ms => 20,
            Unit::Hz => 21,
            Unit::Khz => 22,
            Unit::Dpi => 23,
            Unit::Dpcm => 24,
            Unit::Dppx => 25,
            Unit::Percent => 26,
            Unit::Fr => 27,
            Unit::Unitless => 28,
            Unit::Unknown(_, _) => 29,
        }
    }

    /// A copy of the unit.
    pub fn dup(&self) -> (u: Unit)
        ensures
            u@ == self@,
    {
        match self {
            Unit::Unknown(name, exponent) => Unit::Unknown(name.clone(), *exponent),
            Unit::Em => Unit::Em,
            Unit::Ex => Unit::Ex,
            Unit::Ch => Unit::Ch,
            Unit::Rem => Unit::Rem,
            Unit::Vw => Unit::Vw,
            Unit::Vh => Unit::Vh,
            Unit::Vmin => Unit::Vmin,
            Unit::Vmax => Unit::Vmax,
            Unit::Cm => Unit::Cm,
            Unit::Mm => Unit::Mm,
            Unit::Q => Unit::Q,
            Unit::In => Unit::In,
            Unit::Pt => Unit::Pt,
            Unit::Pc => Unit::Pc,
            Unit::Px => Unit::Px,
            Unit::Deg => Unit::Deg,
            Unit::Grad => Unit::Grad,
            Unit::Rad => Unit::Rad,
            Unit::Turn => Unit::Turn,
            Unit::S => Unit::S,
            Unit::Ms => Unit::Ms,
            Unit::Hz => Unit::Hz,
            Unit::Khz => Unit::Khz,
            Unit::Dpi => Unit::Dpi,
            Unit::Dpcm => Unit::Dpcm,
            Unit::Dppx => Unit::Dppx,
            Unit::Percent => Unit::Percent,
            Unit::Fr => Unit::Fr,
            Unit::Unitless => Unit::Unitless,
        }
    }

    /// The unit that a token behind a number stands for.
    pub fn for_token(t: &Vec<char>) -> (u: Unit)
        ensures
            u@ == unit_for(t@),
    {
        if t.len() == 0 {
            Unit::Unitless
        } else if is_str(t, "em") {
            Unit::Em
        } else if is_str(t, "ex") {
            Unit::Ex
        } else if is_str(t, "ch") {
            Unit::Ch
        } else if is_str(t, "rem") {
            Unit::Rem
        } else if is_str(t, "vw") {
            Unit::Vw
        } else if is_str(t, "vh") {
            Unit::Vh
        } else if is_str(t, "vmin") {
            Unit::Vmin
        } else if is_str(t, "vmax") {
            Unit::Vmax
        } else if is_str(t, "cm") {
            Unit::Cm
        } else if is_str(t, "mm") {
            Unit::Mm
        } else if is_str(t, "q") {
            Unit::Q
        } else if is_str(t, "in") {
            Unit::In
        } else if is_str(t, "pt") {
            Unit::Pt
        } else if is_str(t, "pc") {
            Unit::Pc
        } else if is_str(t, "px") {
            Unit::Px
        } else if is_str(t, "deg") {
            Unit::Deg
        } else if is_str(t, "grad") {
            Unit::Grad
        } else if is_str(t, "rad") {
            Unit::Rad
        } else if is_str(t, "turn") {
            Unit::Turn
        } else if is_str(t, "s") {
            Unit::S
        } else if is_str(t, "ms") {
            Unit::Ms
        } else if is_str(t, "Hz") {
            Unit::Hz
        } else if is_str(t, "kHz") {
            Unit::Khz
        } else if is_str(t, "dpi") {
            Unit::Dpi
        } else if is_str(t, "dpcm") {
            Unit::Dpcm
        } else if is_str(t, "dppx") {
            Unit::Dppx
        } else if is_str(t, "%") {
            Unit::Percent
        } else if is_str(t, "fr") {
            Unit::Fr
        } else {
            Unit::Unknown(string_of(t), 1)
        }
    }
}

/// The place of a unit in the table.
pub open spec fn unit_index(u: Unit) -> u8 {
    match u {
        Unit::Em => 0,
        Unit::Ex => 1,
        Unit::Ch => 2,
        Unit::Rem => 3,
        Unit::Vw => 4,
        Unit::Vh => 5,
        Unit::Vmin => 6,
        Unit::Vmax => 7,
        Unit::Cm => 8,
        Unit::Mm => 9,
        Unit::Q => 10,
        Unit::In => 11,
        Unit::Pt => 12,
        Unit::Pc => 13,
        Unit::Px => 14,
        Unit::Deg => 15,
        Unit::Grad => 16,
        Unit::Rad => 17,
        Unit::Turn => 18,
        Unit::S => 19,
        Unit::Ms => 20,
        Unit::Hz => 21,
        Unit::Khz => 22,
        Unit::Dpi => 23,
        Unit::Dpcm => 24,
        Unit::Dppx => 25,
        Unit::Percent => 26,
        Unit::Fr => 27,
        Unit::Unitless => 28,
        Unit::Unknown(_, _) => 29,
    }
}

} // verus!
