use vstd::prelude::*;

verus! {

/// Marks a lazily computed value that is written through its `Display` text, computed at most
/// once. It only tags types; its one variant is never looked at (Verus has no empty enums).
pub enum CachedDisplay {
    Tag,
}

/// Marks a lazily computed value that is handed to `tracing` as a structured value, computed at
/// most once. It only tags types; its one variant is never looked at.
pub enum CachedValuable {
    Tag,
}

} // verus!
