//! Two birds, the trait of migrating ones, and the trait of tweeting
//! ones.

use vstd::prelude::*;
use vstd::string::StringExecFns;

verus! {

/// A wild goose, known by its colour.
pub struct WildGoose {
    /// The colour of its plumage.
    pub color: String,
}

impl WildGoose {
    /// A fresh goose; grey, as they are.
    pub fn new() -> (r: Self)
        ensures
            r.color@ == "gray"@,
    {
        WildGoose { color: String::from_str("gray") }
    }
}

/// A swallow, known by its colour.
pub struct Swallow {
    /// The colour of its plumage.
    pub color: String,
}

impl Swallow {
    /// A fresh swallow; black, as they are.
    pub fn new() -> (r: Self)
        ensures
            r.color@ == "black"@,
    {
        Swallow { color: String::from_str("black") }
    }
}

/// Birds that migrate; each kind describes how.
pub trait MigrantBird {
    /// How this bird migrates.
    fn migrant(&self) -> String;
}

impl MigrantBird for WildGoose {
    fn migrant(&self) -> String {
        String::from_str("Geese fly in a V-shaped formation")
    }
}

impl MigrantBird for Swallow {
    fn migrant(&self) -> String {
        String::from_str("swallow fly fast, but have to rest frequently")
    }
}

/// Birds that tweet; each kind describes its call.
pub trait Tweet {
    /// The call of this bird.
    fn tweet(&self) -> String;
}

impl Tweet for WildGoose {
    fn tweet(&self) -> String {
        String::from_str("ga ga")
    }
}

impl Tweet for Swallow {
    fn tweet(&self) -> String {
        String::from_str("ji ji zha zha")
    }
}

} // verus!
