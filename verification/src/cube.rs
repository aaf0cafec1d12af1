//! The sole persisted entity type and its mathematical model.

use vstd::prelude::*;

verus! {

/// Mathematical model of a record: every string as a sequence of characters,
/// every count as a plain integer.
#[verifier::ext_equal]
pub struct CubeView {
    pub id: Option<Seq<char>>,
    pub name: Seq<char>,
    pub type_: Seq<char>,
    pub pieces: i64,
    pub faces: i64,
    pub stickers: i64,
    pub year_created: i64,
    pub wr: Seq<char>,
}

/// A record of the service.  `id` is assigned by the store on creation and is
/// `None` on construction requests; `name` is a secondary lookup key; `type_`
/// classifies the record for group lookups; `wr` is a free-form string
/// describing a record statistic.
#[derive(Debug, PartialEq)]
pub struct Cube {
    pub id: Option<String>,
    pub name: String,
    pub type_: String,
    pub pieces: i64,
    pub faces: i64,
    pub stickers: i64,
    pub year_created: i64,
    pub wr: String,
}

pub open spec fn opt_str_view(o: Option<String>) -> Option<Seq<char>> {
    match o {
        Some(s) => Some(s@),
        None => None,
    }
}

impl View for Cube {
    type V = CubeView;

    open spec fn view(&self) -> CubeView {
        CubeView {
            id: opt_str_view(self.id),
            name: self.name@,
            type_: self.type_@,
            pieces: self.pieces,
            faces: self.faces,
            stickers: self.stickers,
            year_created: self.year_created,
            wr: self.wr@,
        }
    }
}

impl Clone for Cube {
    fn clone(&self) -> (r: Self)
        ensures
            r@ == self@,
    {
        Cube {
            id: match &self.id {
                Some(s) => Some(s.clone()),
                None => None,
            },
            name: self.name.clone(),
            type_: self.type_.clone(),
            pieces: self.pieces,
            faces: self.faces,
            stickers: self.stickers,
            year_created: self.year_created,
            wr: self.wr.clone(),
        }
    }
}

/// The views of a sequence of records.
pub open spec fn views_of(s: Seq<Cube>) -> Seq<CubeView> {
    s.map_values(|c: Cube| c@)
}

/// Two record models agree on every attribute except the identifier.
pub open spec fn same_fields(a: CubeView, b: CubeView) -> bool {
    &&& a.name == b.name
    &&& a.type_ == b.type_
    &&& a.pieces == b.pieces
    &&& a.faces == b.faces
    &&& a.stickers == b.stickers
    &&& a.year_created == b.year_created
    &&& a.wr == b.wr
}

} // verus!
