use super::object_id::ObjectProperties;
use crate::air::{AirLeveler, AirPusher, OxygenUser};
use crate::liquids::LiquidLeveler;
use vstd::prelude::*;
use vstd::std_specs::convert::FromSpecImpl;

verus! {

/// A fixed effector on the environment, placed on the grid.
#[derive(Debug)]
pub enum EnvironmentObject<Q> {
    AirLeveler(AirLeveler<usize, Q>),
    OxygenUser(OxygenUser<usize, Q>),
    AirPusher(AirPusher<usize, Q>),
    LiquidLeveler(LiquidLeveler<usize, Q>),
}

impl<Q> ObjectProperties for EnvironmentObject<Q> {

}

impl<Q> From<AirPusher<usize, Q>> for EnvironmentObject<Q> {
    fn from(v: AirPusher<usize, Q>) -> (object: Self) {
        Self::AirPusher(v)
    }
}

impl<Q> FromSpecImpl<AirPusher<usize, Q>> for EnvironmentObject<Q> {
    open spec fn obeys_from_spec() -> bool {
        true
    }

    open spec fn from_spec(v: AirPusher<usize, Q>) -> Self {
        EnvironmentObject::AirPusher(v)
    }
}

impl<Q> From<LiquidLeveler<usize, Q>> for EnvironmentObject<Q> {
    fn from(v: LiquidLeveler<usize, Q>) -> (object: Self) {
        Self::LiquidLeveler(v)
    }
}

impl<Q> FromSpecImpl<LiquidLeveler<usize, Q>> for EnvironmentObject<Q> {
    open spec fn obeys_from_spec() -> bool {
        true
    }

    open spec fn from_spec(v: LiquidLeveler<usize, Q>) -> Self {
        EnvironmentObject::LiquidLeveler(v)
    }
}

impl<Q> From<OxygenUser<usize, Q>> for EnvironmentObject<Q> {
    fn from(v: OxygenUser<usize, Q>) -> (object: Self) {
        Self::OxygenUser(v)
    }
}

impl<Q> FromSpecImpl<OxygenUser<usize, Q>> for EnvironmentObject<Q> {
    open spec fn obeys_from_spec() -> bool {
        true
    }

    open spec fn from_spec(v: OxygenUser<usize, Q>) -> Self {
        EnvironmentObject::OxygenUser(v)
    }
}

impl<Q> From<AirLeveler<usize, Q>> for EnvironmentObject<Q> {
    fn from(v: AirLeveler<usize, Q>) -> (object: Self) {
        Self::AirLeveler(v)
    }
}

impl<Q> FromSpecImpl<AirLeveler<usize, Q>> for EnvironmentObject<Q> {
    open spec fn obeys_from_spec() -> bool {
        true
    }

    open spec fn from_spec(v: AirLeveler<usize, Q>) -> Self {
        EnvironmentObject::AirLeveler(v)
    }
}

impl<Q: Copy> EnvironmentObject<Q> {
    /// The air leveler that the object is, if it is one.
    pub fn air_levelers(&self) -> (levelers: Vec<AirLeveler<usize, Q>>)
        ensures
            levelers@ == match *self {
                EnvironmentObject::AirLeveler(al) => seq![al],
                _ => Seq::empty(),
            },
    {
        let mut levelers: Vec<AirLeveler<usize, Q>> = Vec::new();
        match self {
            EnvironmentObject::AirLeveler(al) => {
                levelers.push(*al);
            },
            _ => {},
        }
        levelers
    }

    /// The oxygen user that the object is, if it is one.
    pub fn oxygen_users(&self) -> (users: Vec<OxygenUser<usize, Q>>)
        ensures
            users@ == match *self {
                EnvironmentObject::OxygenUser(ou) => seq![ou],
                _ => Seq::empty(),
            },
    {
        let mut users: Vec<OxygenUser<usize, Q>> = Vec::new();
        match self {
            EnvironmentObject::OxygenUser(ou) => {
                users.push(*ou);
            },
            _ => {},
        }
        users
    }

    /// The liquid leveler that the object is, if it is one.
    pub fn liquid_levelers(&self) -> (levelers: Vec<LiquidLeveler<usize, Q>>)
        ensures
            levelers@ == match *self {
                EnvironmentObject::LiquidLeveler(ll) => seq![ll],
                _ => Seq::empty(),
            },
    {
        let mut levelers: Vec<LiquidLeveler<usize, Q>> = Vec::new();
        match self {
            EnvironmentObject::LiquidLeveler(ll) => {
                levelers.push(*ll);
            },
            _ => {},
        }
        levelers
    }

    /// The air pusher that the object is, if it is one.
    pub fn air_pushers(&self) -> (pushers: Vec<AirPusher<usize, Q>>)
        ensures
            pushers@ == match *self {
                EnvironmentObject::AirPusher(ap) => seq![ap],
                _ => Seq::empty(),
            },
    {
        let mut pushers: Vec<AirPusher<usize, Q>> = Vec::new();
        match self {
            EnvironmentObject::AirPusher(ap) => {
                pushers.push(*ap);
            },
            _ => {},
        }
        pushers
    }
}

} // verus!
