use vstd::prelude::*;
use vstd::string::StringExecFns;
use crate::models::ConfidenceLevel;
use crate::server::{digit_char, digit_str};

verus! {

/// A decimal number as the store returns it: `value` scaled down by `10^scale`.
#[derive(Clone, Copy, Debug, PartialEq, Eq)]
pub struct DecimalValue {
    pub value: i128,
    pub scale: u8,
}

/// A calendar date.
#[derive(Clone, Copy, Debug, PartialEq, Eq)]
pub struct Date {
    pub year: u16,
    pub month: u8,
    pub day: u8,
}

impl Date {
    /// A date the store can hold: year 0..=9999, month 1..=12, day 1..=31.
    pub open spec fn wf(&self) -> bool {
        &&& self.year <= 9999
        &&& 1 <= self.month <= 12
        &&& 1 <= self.day <= 31
    }

    /// The `YYYY-MM-DD` form of the date, each part zero-padded.
    pub open spec fn iso(&self) -> Seq<char> {
        let y = self.year as nat;
        let m = self.month as nat;
        let d = self.day as nat;
        seq![
            digit_char(y / 1000),
            digit_char((y / 100) % 10),
            digit_char((y / 10) % 10),
            digit_char(y % 10),
            '-',
            digit_char(m / 10),
            digit_char(m % 10),
            '-',
            digit_char(d / 10),
            digit_char(d % 10),
        ]
    }

    /// The date as `YYYY-MM-DD`.
    pub fn iso_text(&self) -> (r: String)
        requires
            self.wf(),
        ensures
            r@ == self.iso(),
    {
        proof {
            reveal_strlit("-");
        }
        let y = self.year as u64;
        let m = self.month as u64;
        let d = self.day as u64;
        let mut s = String::new();
        s.append(digit_str(y / 1000));
        s.append(digit_str((y / 100) % 10));
        s.append(digit_str((y / 10) % 10));
        s.append(digit_str(y % 10));
        s.append("-");
        s.append(digit_str(m / 10));
        s.append(digit_str(m % 10));
        s.append("-");
        s.append(digit_str(d / 10));
        s.append(digit_str(d % 10));
        assert(s@ =~= self.iso());
        s
    }
}

/// A project as read back from the store.
#[derive(Clone, Debug, PartialEq, Eq)]
pub struct ProjectRecord {
    pub id: i32,
    pub name: String,
    pub num_turbines: Option<i16>,
    pub capacity_mw: Option<DecimalValue>,
}

/// A turbine model as read back from the store.
#[derive(Clone, Debug, PartialEq, Eq)]
pub struct ModelRecord {
    pub id: i32,
    pub manufacturer_id: i32,
    pub name: String,
    pub capacity_kw: Option<i32>,
    pub hub_height: Option<DecimalValue>,
    pub rotor_diameter: Option<DecimalValue>,
    pub rotor_swept_area: Option<DecimalValue>,
    pub total_height_to_tip: Option<DecimalValue>,
}

/// A turbine as read back from the store.
#[derive(Clone, Debug, PartialEq, Eq)]
pub struct TurbineRecord {
    pub id: i32,
    pub county_id: i32,
    pub project_id: i32,
    pub model_id: i32,
    pub image_source_id: u8,
    pub retrofit: bool,
    pub retrofit_year: Option<i16>,
    pub attributes_confidence_level: ConfidenceLevel,
    pub location_confidence_level: ConfidenceLevel,
    pub image_date: Option<Date>,
    pub latitude: DecimalValue,
    pub longitude: DecimalValue,
}

impl TurbineRecord {
    /// The image date as served: `YYYY-MM-DD`, or absent. A date outside what the store
    /// can hold is served as absent.
    pub fn image_date_text(&self) -> (r: Option<String>)
        ensures
            self.image_date is Some && self.image_date.unwrap().wf() ==> (r matches Some(t) && t@
                == self.image_date.unwrap().iso()),
            self.image_date is Some && !self.image_date.unwrap().wf() ==> r is None,
            self.image_date is None ==> r is None,
    {
        match self.image_date {
            Some(d) => {
                if d.year <= 9999 && 1 <= d.month && d.month <= 12 && 1 <= d.day && d.day <= 31 {
                    Some(d.iso_text())
                } else {
                    None
                }
            },
            None => None,
        }
    }
}

} // verus!
