//! Outside types that the library carries through without reading them.
//!
//! Each declaration below makes an outside type usable in signatures and
//! fields. The types are opaque: nothing in the library inspects their
//! contents, it only stores and hands back the values it was given.
use vstd::prelude::*;

verus! {

/// `bevy::ecs::entity::Entity`, an identifier of an ECS entity.
#[verifier::external_type_specification]
#[verifier::external_body]
pub struct ExEntity(bevy::ecs::entity::Entity);

/// `bevy::math::Vec2` (glam), a 2D vector of floats.
#[verifier::external_type_specification]
#[verifier::external_body]
pub struct ExVec2(bevy::math::Vec2);

/// `bevy::math::Vec3` (glam), a 3D vector of floats.
#[verifier::external_type_specification]
#[verifier::external_body]
pub struct ExVec3(bevy::math::Vec3);

/// `bevy::color::Color`, a color in one of several color spaces.
#[verifier::external_type_specification]
#[verifier::external_body]
pub struct ExColor(bevy::color::Color);

/// `uuid::Uuid`, a 128-bit universally unique identifier.
#[verifier::external_type_specification]
#[verifier::external_body]
pub struct ExUuid(uuid::Uuid);

/// `std::io::Error`, an I/O error.
#[verifier::external_type_specification]
#[verifier::external_body]
pub struct ExIoError(std::io::Error);

/// `bevy::ecs::entity::Entity`'s `==`, which compares the entities' bits
/// (index and generation, the only fields of an entity): two entities are
/// equal exactly when they are the same value.
#[verifier::external_body]
pub(crate) fn entity_eq(a: &bevy::ecs::entity::Entity, b: &bevy::ecs::entity::Entity) -> (r: bool)
    ensures
        r == (*a == *b),
{
    *a == *b
}

} // verus!
