//! Move object abilities and their validity rules.
use vstd::prelude::*;
use crate::errors::ProtocolError;

verus! {

/// Object ability
#[derive(Debug, Clone, Copy, PartialEq, Eq, Structural)]
pub enum Ability {
    /// Object can be copied
    Copy,
    /// Object can be dropped
    Drop,
    /// Object can be stored
    Store,
    /// Object can be a key
    Key,
}

/// Object capabilities: a set of abilities.
#[derive(Debug, Clone, Copy)]
pub struct ObjectCapabilities {
    copy: bool,
    drop: bool,
    store: bool,
    key: bool,
}

impl View for ObjectCapabilities {
    type V = Set<Ability>;

    closed spec fn view(&self) -> Set<Ability> {
        Set::new(
            |a: Ability|
                match a {
                    Ability::Copy => self.copy,
                    Ability::Drop => self.drop,
                    Ability::Store => self.store,
                    Ability::Key => self.key,
                },
        )
    }
}

impl ObjectCapabilities {
    /// Whether the abilities obey the rules: Copy needs Drop, Key needs Store.
    pub open spec fn valid_set(s: Set<Ability>) -> bool {
        &&& s.contains(Ability::Copy) ==> s.contains(Ability::Drop)
        &&& s.contains(Ability::Key) ==> s.contains(Ability::Store)
    }

    /// Create new capabilities
    pub fn new() -> (c: ObjectCapabilities)
        ensures
            c@ == Set::<Ability>::empty(),
    {
        let c = ObjectCapabilities { copy: false, drop: false, store: false, key: false };
        assert(c@ =~= Set::<Ability>::empty());
        c
    }

    /// Add ability
    pub fn add_ability(&mut self, ability: Ability)
        ensures
            final(self)@ == old(self)@.insert(ability),
    {
        match ability {
            Ability::Copy => self.copy = true,
            Ability::Drop => self.drop = true,
            Ability::Store => self.store = true,
            Ability::Key => self.key = true,
        }
        assert(self@ =~= old(self)@.insert(ability));
    }

    /// Remove ability
    pub fn remove_ability(&mut self, ability: &Ability)
        ensures
            final(self)@ == old(self)@.remove(*ability),
    {
        match ability {
            Ability::Copy => self.copy = false,
            Ability::Drop => self.drop = false,
            Ability::Store => self.store = false,
            Ability::Key => self.key = false,
        }
        assert(self@ =~= old(self)@.remove(*ability));
    }

    /// Check if has ability
    pub fn has_ability(&self, ability: &Ability) -> (r: bool)
        ensures
            r == self@.contains(*ability),
    {
        match ability {
            Ability::Copy => self.copy,
            Ability::Drop => self.drop,
            Ability::Store => self.store,
            Ability::Key => self.key,
        }
    }

    /// Get all abilities, each once, in the order Copy, Drop, Store, Key.
    pub fn get_abilities(&self) -> (v: Vec<Ability>)
        ensures
            v@.to_set() == self@,
            v@.no_duplicates(),
    {
        let mut v: Vec<Ability> = Vec::new();
        let ghost mut ic: int = -1;
        let ghost mut id: int = -1;
        let ghost mut is: int = -1;
        let ghost mut ik: int = -1;
        if self.copy {
            proof { ic = v@.len() as int; }
            v.push(Ability::Copy);
        }
        if self.drop {
            proof { id = v@.len() as int; }
            v.push(Ability::Drop);
        }
        if self.store {
            proof { is = v@.len() as int; }
            v.push(Ability::Store);
        }
        if self.key {
            proof { ik = v@.len() as int; }
            v.push(Ability::Key);
        }
        assert(self.copy ==> 0 <= ic < v@.len() && v@[ic] == Ability::Copy);
        assert(self.drop ==> 0 <= id < v@.len() && v@[id] == Ability::Drop);
        assert(self.store ==> 0 <= is < v@.len() && v@[is] == Ability::Store);
        assert(self.key ==> 0 <= ik < v@.len() && v@[ik] == Ability::Key);
        assert forall|i: int| 0 <= i < v@.len() implies self@.contains(#[trigger] v@[i]) by {
        }
        assert(v@.to_set() =~= self@) by {
            assert forall|a: Ability| self@.contains(a) implies v@.contains(a) by {
                match a {
                    Ability::Copy => assert(v@[ic] == a),
                    Ability::Drop => assert(v@[id] == a),
                    Ability::Store => assert(v@[is] == a),
                    Ability::Key => assert(v@[ik] == a),
                }
            }
        }
        v
    }

    /// Check if can be copied
    pub fn is_copy(&self) -> (r: bool)
        ensures
            r == self@.contains(Ability::Copy),
    {
        self.has_ability(&Ability::Copy)
    }

    /// Check if can be dropped
    pub fn is_drop(&self) -> (r: bool)
        ensures
            r == self@.contains(Ability::Drop),
    {
        self.has_ability(&Ability::Drop)
    }

    /// Check if can be stored
    pub fn is_store(&self) -> (r: bool)
        ensures
            r == self@.contains(Ability::Store),
    {
        self.has_ability(&Ability::Store)
    }

    /// Check if can be a key
    pub fn is_key(&self) -> (r: bool)
        ensures
            r == self@.contains(Ability::Key),
    {
        self.has_ability(&Ability::Key)
    }

    /// Verify abilities are valid: Copy requires Drop, Key requires Store.
    pub fn verify(&self) -> (r: Result<(), ProtocolError>)
        ensures
            r is Ok <==> Self::valid_set(self@),
            r matches Err(e) ==> e is InvalidAbilities,
    {
        if self.is_copy() && !self.is_drop() {
            return Err(ProtocolError::InvalidAbilities("Copy requires Drop ability".to_string()));
        }
        if self.is_key() && !self.is_store() {
            return Err(ProtocolError::InvalidAbilities("Key requires Store ability".to_string()));
        }
        Ok(())
    }
}

} // verus!
