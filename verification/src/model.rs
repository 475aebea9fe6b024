//! The domain model and the mapping between persisted rows and domain
//! values.
//!
//! Coordinates are double-precision degrees; this layer never interprets
//! them, so each is carried as the raw bit pattern of its IEEE-754 double.
//! Dates are naive timestamps interpreted as UTC, carried as microseconds
//! since the Unix epoch.

use vstd::prelude::*;

verus! {

/// A geographic point: latitude and longitude in degrees, each held as the
/// bit pattern of an IEEE-754 double. The values pass through this layer
/// uninterpreted; only the caller's distance computation reads them.
#[derive(Clone, Copy, PartialEq, Eq, Structural, Debug)]
pub struct Point {
    pub lat_bits: u64,
    pub lng_bits: u64,
}

/// A human-readable place name (absent when the row stored none) together
/// with the mandatory geographic point.
#[derive(Debug)]
pub struct Location {
    pub name: Option<String>,
    pub point: Point,
}

/// The mathematical value of a `Location`.
pub ghost struct LocationView {
    pub name: Option<Seq<char>>,
    pub point: Point,
}

impl View for Location {
    type V = LocationView;

    open spec fn view(&self) -> LocationView {
        LocationView { name: self.name.deep_view(), point: self.point }
    }
}

impl DeepView for Location {
    type V = LocationView;

    open spec fn deep_view(&self) -> LocationView {
        self.view()
    }
}

/// A location as a caller supplies it: an optional name and the two
/// coordinates.
pub struct LocationInput {
    pub name: Option<String>,
    pub lat_bits: u64,
    pub lng_bits: u64,
}

impl View for LocationInput {
    type V = LocationView;

    open spec fn view(&self) -> LocationView {
        LocationView {
            name: self.name.deep_view(),
            point: Point { lat_bits: self.lat_bits, lng_bits: self.lng_bits },
        }
    }
}

impl Location {
    /// Builds a `Location` from caller input: the name passes through
    /// unchanged (absent stays absent) and the coordinates become the point.
    pub fn from_input(input: LocationInput) -> (l: Location)
        ensures
            l@ == input@,
    {
        Location {
            name: input.name,
            point: Point { lat_bits: input.lat_bits, lng_bits: input.lng_bits },
        }
    }
}

/// One persisted row of the opportunity table, exactly as the persistence
/// gateway hands it over: plain values only.
pub struct Row {
    pub id: i32,
    pub title: String,
    pub location_name: Option<String>,
    pub lat_bits: u64,
    pub lng_bits: u64,
    pub description: String,
    pub date: i64,
    pub tags: Vec<String>,
}

/// The mathematical value of a `Row`.
pub ghost struct RowView {
    pub id: int,
    pub title: Seq<char>,
    pub location_name: Option<Seq<char>>,
    pub lat_bits: u64,
    pub lng_bits: u64,
    pub description: Seq<char>,
    pub date: int,
    pub tags: Seq<Seq<char>>,
}

impl View for Row {
    type V = RowView;

    open spec fn view(&self) -> RowView {
        RowView {
            id: self.id as int,
            title: self.title@,
            location_name: self.location_name.deep_view(),
            lat_bits: self.lat_bits,
            lng_bits: self.lng_bits,
            description: self.description@,
            date: self.date as int,
            tags: self.tags.deep_view(),
        }
    }
}

impl DeepView for Row {
    type V = RowView;

    open spec fn deep_view(&self) -> RowView {
        self.view()
    }
}

/// A voting opportunity as the operations expose it: one row, mapped.
#[derive(Debug)]
pub struct Vote {
    pub id: i32,
    pub title: String,
    pub location: Location,
    pub description: String,
    pub date: i64,
    pub tags: Vec<String>,
}

/// The mathematical value of a `Vote`.
pub ghost struct VoteView {
    pub id: int,
    pub title: Seq<char>,
    pub location: LocationView,
    pub description: Seq<char>,
    pub date: int,
    pub tags: Seq<Seq<char>>,
}

impl View for Vote {
    type V = VoteView;

    open spec fn view(&self) -> VoteView {
        VoteView {
            id: self.id as int,
            title: self.title@,
            location: self.location@,
            description: self.description@,
            date: self.date as int,
            tags: self.tags.deep_view(),
        }
    }
}

impl DeepView for Vote {
    type V = VoteView;

    open spec fn deep_view(&self) -> VoteView {
        self.view()
    }
}

/// The read mapping, row to opportunity, as a mathematical function: every
/// field passes through, an absent location name stays absent, and the two
/// coordinates form the point.
pub open spec fn spec_build(r: RowView) -> VoteView {
    VoteView {
        id: r.id,
        title: r.title,
        location: LocationView {
            name: r.location_name,
            point: Point { lat_bits: r.lat_bits, lng_bits: r.lng_bits },
        },
        description: r.description,
        date: r.date,
        tags: r.tags,
    }
}

impl Vote {
    /// The read mapping: one persisted row, taken whole, becomes one
    /// opportunity. Total over the row's fields; no validation.
    pub fn build(row: Row) -> (v: Vote)
        ensures
            v@ == spec_build(row@),
    {
        Vote {
            id: row.id,
            title: row.title,
            location: Location {
                name: row.location_name,
                point: Point { lat_bits: row.lat_bits, lng_bits: row.lng_bits },
            },
            description: row.description,
            date: row.date,
            tags: row.tags,
        }
    }
}

/// A new opportunity as a caller supplies it for creation. It carries no
/// identifier: the store assigns one.
pub struct VoteInput {
    pub title: String,
    pub location_name: Option<String>,
    pub lat_bits: u64,
    pub lng_bits: u64,
    pub description: String,
    pub date: i64,
    pub tags: Vec<String>,
}

/// The mathematical value of a `VoteInput`.
pub ghost struct VoteInputView {
    pub title: Seq<char>,
    pub location_name: Option<Seq<char>>,
    pub lat_bits: u64,
    pub lng_bits: u64,
    pub description: Seq<char>,
    pub date: int,
    pub tags: Seq<Seq<char>>,
}

impl View for VoteInput {
    type V = VoteInputView;

    open spec fn view(&self) -> VoteInputView {
        VoteInputView {
            title: self.title@,
            location_name: self.location_name.deep_view(),
            lat_bits: self.lat_bits,
            lng_bits: self.lng_bits,
            description: self.description@,
            date: self.date as int,
            tags: self.tags.deep_view(),
        }
    }
}

/// The write mapping as a mathematical function: the input's fields pass
/// through unchanged and the store-assigned identifier is added.
pub open spec fn spec_row_of_input(input: VoteInputView, id: int) -> RowView {
    RowView {
        id: id,
        title: input.title,
        location_name: input.location_name,
        lat_bits: input.lat_bits,
        lng_bits: input.lng_bits,
        description: input.description,
        date: input.date,
        tags: input.tags,
    }
}

/// The failure kinds an operation can surface: the requested identifier
/// matched no row, or the persistence layer itself failed.
#[derive(Clone, Copy, PartialEq, Eq, Structural, Debug)]
pub enum ApiError {
    NotFound,
    PersistenceError,
}

/// Clones a tag list; the copy holds the same strings in the same order.
fn clone_tags(tags: &Vec<String>) -> (r: Vec<String>)
    ensures
        r@ == tags@,
{
    let mut out: Vec<String> = Vec::new();
    let mut i: usize = 0;
    while i < tags.len()
        invariant
            i <= tags.len(),
            out@ == tags@.take(i as int),
        decreases tags.len() - i,
    {
        out.push(tags[i].clone());
        i = i + 1;
        proof {
            assert(out@ =~= tags@.take(i as int));
        }
    }
    proof {
        assert(tags@.take(tags.len() as int) =~= tags@);
    }
    out
}

/// Clones an optional string; the copy is the same value.
fn clone_opt_string(s: &Option<String>) -> (r: Option<String>)
    ensures
        r == *s,
{
    match s {
        Some(t) => Some(t.clone()),
        None => None,
    }
}

impl Clone for Row {
    /// A clone carries the same mathematical value.
    fn clone(&self) -> (r: Row)
        ensures
            r@ == self@,
    {
        let r = Row {
            id: self.id,
            title: self.title.clone(),
            location_name: clone_opt_string(&self.location_name),
            lat_bits: self.lat_bits,
            lng_bits: self.lng_bits,
            description: self.description.clone(),
            date: self.date,
            tags: clone_tags(&self.tags),
        };
        proof {
            assert(r.tags.deep_view() =~= self.tags.deep_view());
        }
        r
    }
}

impl Clone for Location {
    /// A clone carries the same mathematical value.
    fn clone(&self) -> (l: Location)
        ensures
            l@ == self@,
    {
        Location { name: clone_opt_string(&self.name), point: self.point }
    }
}

impl Clone for Vote {
    /// A clone carries the same mathematical value.
    fn clone(&self) -> (v: Vote)
        ensures
            v@ == self@,
    {
        let v = Vote {
            id: self.id,
            title: self.title.clone(),
            location: self.location.clone(),
            description: self.description.clone(),
            date: self.date,
            tags: clone_tags(&self.tags),
        };
        proof {
            assert(v.tags.deep_view() =~= self.tags.deep_view());
        }
        v
    }
}

} // verus!
