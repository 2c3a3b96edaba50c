//! Properties (tracked sites) as stored and as used.
use vstd::prelude::*;
use crate::ids::{hyphenated, uuid_from_slice, uuid_text};

verus! {

/// A custom event card: the event name and whether its card is shown.
pub struct CustomCard {
    pub event: String,
    pub value: bool,
}

/// A row of the `properties` table.
pub struct PropertyRow {
    pub id: Vec<u8>,
    pub name: String,
    pub custom_cards: String,
    pub is_protected: i64,
    pub is_public: i64,
    pub created_at: i64,
    pub updated_at: i64,
}

/// A property.
pub struct Property {
    pub id: [u8; 16],
    pub name: String,
    pub custom_cards: Vec<CustomCard>,
    pub is_protected: bool,
    pub is_public: bool,
    pub created_at: i64,
    pub updated_at: i64,
}

impl Property {
    /// The property's id as written in URLs: hyphenated, lower case.
    pub fn id_text(&self) -> (r: String)
        ensures
            r@ == hyphenated(self.id@),
    {
        uuid_text(&self.id)
    }
}

impl PropertyRow {
    /// The property a row stores. An id that is not 16 bytes reads as the nil
    /// UUID; `cards` is what the `custom_cards` JSON parsed to, and cards that
    /// did not parse read as none.
    pub fn into_property(self, cards: Option<Vec<CustomCard>>) -> (p: Property)
        ensures
            self.id@.len() == 16 ==> p.id@ == self.id@,
            self.id@.len() != 16 ==> p.id@ == Seq::new(16, |i: int| 0u8),
            p.name == self.name,
            match cards {
                Some(c) => p.custom_cards == c,
                None => p.custom_cards@.len() == 0,
            },
            p.is_protected == (self.is_protected != 0),
            p.is_public == (self.is_public != 0),
            p.created_at == self.created_at,
            p.updated_at == self.updated_at,
    {
        let id = match uuid_from_slice(self.id.as_slice()) {
            Some(a) => a,
            None => {
                let z = [0u8; 16];
                assert(z@ =~= Seq::new(16, |i: int| 0u8));
                z
            },
        };
        let custom_cards = match cards {
            Some(c) => c,
            None => Vec::new(),
        };
        Property {
            id,
            name: self.name,
            custom_cards,
            is_protected: self.is_protected != 0,
            is_public: self.is_public != 0,
            created_at: self.created_at,
            updated_at: self.updated_at,
        }
    }
}

} // verus!
