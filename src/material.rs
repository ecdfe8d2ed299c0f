use vstd::prelude::*;

verus! {

/// The scattering model of a surface. In the material table each entry is
/// four 32-bit words: an RGB albedo and, in the fourth word, the tag below.
#[derive(Clone, Copy, Debug, PartialEq, Eq, Structural)]
pub enum Material {
    Lambertian,
    Metal,
    Emissive,
    Dielectric,
}

/// The tag word of each material: its position in the declaration.
pub open spec fn tag_of(m: Material) -> u32 {
    match m {
        Material::Lambertian => 0,
        Material::Metal => 1,
        Material::Emissive => 2,
        Material::Dielectric => 3,
    }
}

impl Material {
    /// The tag word that stands for this material in the material table.
    pub fn to_bits(self) -> (r: u32)
        ensures
            r == tag_of(self),
            r < 4,
    {
        match self {
            Material::Lambertian => 0,
            Material::Metal => 1,
            Material::Emissive => 2,
            Material::Dielectric => 3,
        }
    }

    /// Reads a tag word back; a word that is no tag gives `None`.
    pub fn from_bits(bits: u32) -> (r: Option<Material>)
        ensures
            r.is_some() <==> bits < 4,
            r matches Some(m) ==> tag_of(m) == bits,
    {
        match bits {
            0 => Some(Material::Lambertian),
            1 => Some(Material::Metal),
            2 => Some(Material::Emissive),
            3 => Some(Material::Dielectric),
            _ => None,
        }
    }
}

/// Every material survives being written to the table and read back.
pub proof fn lemma_tag_round_trip(m: Material)
    ensures
        tag_of(m) < 4,
        forall|n: Material| tag_of(n) == tag_of(m) ==> n == m,
{
}

} // verus!
