//! Web views: UI nodes that display a web page.
use vstd::prelude::*;

use bevy::ecs::entity::Entity;
use uuid::Uuid as UUID;

verus! {

/// Errors of the web view plugin.
#[derive(Debug)]
pub enum WebViewError {
    /// The entity was expected to have a web view.
    Missing(Entity),
}

/// Spawns web view controllers and keeps them in sync with their nodes.
#[derive(Default)]
pub struct WebViewPlugin;

/// `uuid::Uuid::new_v4`: a random identifier. Nothing is stated of it.
#[verifier::external_body]
fn random_uuid() -> UUID {
    UUID::new_v4()
}

/// A UI node that displays the page at an address.
#[derive(Default, Debug)]
pub struct WebViewDisplay {
    uuid: UUID,
    address: Option<String>,
}

impl WebViewDisplay {
    /// A display with a fresh random identifier and no address.
    pub fn new() -> (d: Self)
        ensures
            d.address_of() is None,
    {
        WebViewDisplay { uuid: random_uuid(), address: None }
    }

    /// The address the display shows, if any.
    pub closed spec fn address_of(&self) -> Option<Seq<char>> {
        match self.address {
            Some(a) => Some(a@),
            None => None,
        }
    }

    /// The identifier of the display.
    pub closed spec fn uuid_of(&self) -> UUID {
        self.uuid
    }

    /// The identifier of the display.
    pub fn uuid(&self) -> (u: UUID)
        ensures
            u == self.uuid_of(),
    {
        self.uuid
    }

    /// The address the display shows, if any.
    pub fn address(&self) -> (a: Option<&String>)
        ensures
            a is Some <==> self.address_of() is Some,
            a is Some ==> self.address_of() == Some(a->0@),
    {
        match &self.address {
            Some(a) => Some(a),
            None => None,
        }
    }

    /// Accepts new bounds for the display; the display does not change.
    pub fn set_bounds<R>(&mut self, rect: R) -> (r: Result<(), ()>)
        ensures
            r is Ok,
            final(self).address_of() == old(self).address_of(),
            final(self).uuid_of() == old(self).uuid_of(),
    {
        Ok(())
    }

    /// The same display, showing the given address.
    pub fn with_address(self, address: String) -> (r: Result<Self, ()>)
        ensures
            r is Ok,
            r->Ok_0.address_of() == Some(address@),
            r->Ok_0.uuid_of() == self.uuid_of(),
    {
        let mut d = self;
        d.address = Some(address);
        Ok(d)
    }

    /// Shows the given address.
    pub fn set_address(&mut self, address: String) -> (r: Result<(), ()>)
        ensures
            r is Ok,
            final(self).address_of() == Some(address@),
            final(self).uuid_of() == old(self).uuid_of(),
    {
        self.address = Some(address);
        Ok(())
    }

    /// Told that the parent window moved; the display does not change.
    pub fn notify_parent_window_position_changed(&mut self)
        ensures
            final(self).address_of() == old(self).address_of(),
            final(self).uuid_of() == old(self).uuid_of(),
    {
    }
}

} // verus!
