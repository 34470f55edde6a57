use vstd::prelude::*;

verus! {

/// The output protocols a target can declare.
#[derive(Debug, Clone, Copy, PartialEq, Eq, Structural)]
pub enum TargetType {
    M3u,
    Strm,
    Xtream,
}

/// The order in which filter, rename and mapping are applied.
#[derive(Debug, Clone, Copy, PartialEq, Eq, Structural)]
pub enum ProcessingOrder {
    Frm,
    Fmr,
    Rfm,
    Rmf,
    Mfr,
    Mrf,
}

#[derive(Debug, Clone, Copy, PartialEq, Eq, Structural)]
pub enum SortOrder {
    Asc,
    Desc,
}

/// The item field a rule applies to.
#[derive(Debug, Clone, Copy, PartialEq, Eq, Structural)]
pub enum ItemField {
    Group,
    Name,
    Title,
}

/// The kinds of operator notification.
#[derive(Debug, Clone, Copy, PartialEq, Eq, Structural)]
pub enum MsgKind {
    Info,
    Stats,
    Error,
}

} // verus!
