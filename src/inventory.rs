use vstd::prelude::*;

verus! {

/// The kinds of gun.
#[derive(Clone, Copy, Debug, PartialEq, Eq, Structural)]
pub enum GunType {
    Shotgun,
}

impl Default for GunType {
    fn default() -> (r: GunType)
        ensures
            r == GunType::Shotgun,
    {
        GunType::Shotgun
    }
}

impl GunType {
    /// The time between two shots, in milliseconds.
    pub fn cooldown_millis(&self) -> (r: u64)
        ensures
            r == 700,
    {
        match self {
            GunType::Shotgun => 700,
        }
    }
}

/// Something the player can pick up and carry.
#[derive(Clone, Copy, Debug, PartialEq, Eq, Structural)]
pub enum Item {
    Gun(GunType),
    Grenade,
    Totem,
}

impl Item {
    /// The image that shows the item, relative to the asset folder.
    pub fn image_path(&self) -> (r: &'static str)
        ensures
            r@ == (match *self {
                Item::Gun(GunType::Shotgun) => "images/shotgun.png"@,
                Item::Grenade => "images/grenade.png"@,
                Item::Totem => "images/totem.png"@,
            }),
    {
        match self {
            Item::Gun(gun_type) => match gun_type {
                GunType::Shotgun => "images/shotgun.png",
            },
            Item::Grenade => "images/grenade.png",
            Item::Totem => "images/totem.png",
        }
    }
}

/// What the player carries: one item at most.
#[derive(Debug, Default)]
pub struct Inventory(pub Option<Item>);

impl Inventory {
    /// Takes `item` when the inventory is empty, and reports whether it did;
    /// a full inventory is left as it is.
    pub fn collect_item(&mut self, item: Item) -> (taken: bool)
        ensures
            taken == old(self).0.is_none(),
            taken ==> final(self).0 == Some(item),
            !taken ==> final(self).0 == old(self).0,
    {
        if self.0.is_none() {
            self.0 = Some(item);
            true
        } else {
            false
        }
    }

    /// Empties the inventory and hands back what it held.
    pub fn drop_item(&mut self) -> (r: Option<Item>)
        ensures
            r == old(self).0,
            final(self).0.is_none(),
    {
        let r = self.0;
        self.0 = None;
        r
    }

    /// The item held, if any.
    pub fn get_item(&self) -> (r: Option<&Item>)
        ensures
            r.is_none() == self.0.is_none(),
            r matches Some(i) ==> self.0 == Some(*i),
    {
        match &self.0 {
            Some(i) => Some(i),
            None => None,
        }
    }
}

} // verus!
