//! What a scan of the model cache decides for each bundle it builds: the
//! total VRAM of its components, whether it is complete, and which of its
//! components it requires.
use vstd::prelude::*;
use crate::text::str_equal;

verus! {

/// A component of a bundle, in the order the bundle lists them, as the
/// database knows it.
#[derive(Debug, Clone)]
pub struct ScannedComponent {
    /// The component's role in the bundle ("transformer", "vae", ...).
    pub role: String,
    /// Whether the component is stored in the database.
    pub found: bool,
    /// The VRAM it needs in megabytes, where it is stored with one.
    pub vram_mb: Option<i32>,
}

/// What a component adds to its bundle's VRAM: its own where it is stored
/// with one, else nothing.
pub open spec fn vram_of(c: ScannedComponent) -> int {
    if c.found {
        match c.vram_mb {
            Some(v) => v as int,
            None => 0,
        }
    } else {
        0
    }
}

/// The total VRAM of the components `cs`.
pub open spec fn vram_sum(cs: Seq<ScannedComponent>) -> int
    decreases cs.len(),
{
    if cs.len() == 0 {
        0
    } else {
        vram_sum(cs.drop_last()) + vram_of(cs.last())
    }
}

/// Every running total of the VRAM, first component to last, fits an `i32`.
pub open spec fn vram_sums_fit(cs: Seq<ScannedComponent>) -> bool {
    forall|k: int| 0 <= k <= cs.len() ==> i32::MIN <= #[trigger] vram_sum(cs.take(k)) <= i32::MAX
}

/// A bundle is complete where none of its components is missing and it has
/// at least four.
pub open spec fn is_complete(cs: Seq<ScannedComponent>) -> bool {
    &&& forall|i: int| 0 <= i < cs.len() ==> (#[trigger] cs[i]).found
    &&& cs.len() >= 4
}

/// The roles a bundle cannot do without.
pub open spec fn is_required_role(role: Seq<char>) -> bool {
    ||| role == "transformer"@
    ||| role == "t5"@
    ||| role == "clip"@
    ||| role == "vae"@
}

/// Whether the running totals of the bundle's VRAM all fit an `i32`.
pub fn vram_total_fits(components: &Vec<ScannedComponent>) -> (r: bool)
    ensures
        r == vram_sums_fit(components@),
{
    let ghost cs = components@;
    let mut total: i32 = 0;
    let mut i: usize = 0;
    assert(cs.take(0) =~= Seq::<ScannedComponent>::empty());
    while i < components.len()
        invariant
            i <= cs.len(),
            cs == components@,
            total as int == vram_sum(cs.take(i as int)),
            forall|k: int| 0 <= k <= i ==> i32::MIN <= #[trigger] vram_sum(cs.take(k)) <= i32::MAX,
        decreases cs.len() - i,
    {
        assert(cs.take(i + 1).drop_last() =~= cs.take(i as int));
        let c = &components[i];
        let add: i32 = if c.found {
            match c.vram_mb {
                Some(v) => v,
                None => 0,
            }
        } else {
            0
        };
        match total.checked_add(add) {
            Some(t) => {
                total = t;
            },
            None => {
                assert(!(i32::MIN <= vram_sum(cs.take(i + 1)) <= i32::MAX));
                return false;
            },
        }
        i = i + 1;
    }
    true
}

/// The total VRAM of the bundle's stored components, in megabytes.
pub fn bundle_vram_total(components: &Vec<ScannedComponent>) -> (r: i32)
    requires
        vram_sums_fit(components@),
    ensures
        r as int == vram_sum(components@),
{
    let ghost cs = components@;
    let mut total: i32 = 0;
    let mut i: usize = 0;
    assert(cs.take(0) =~= Seq::<ScannedComponent>::empty());
    while i < components.len()
        invariant
            i <= cs.len(),
            cs == components@,
            vram_sums_fit(cs),
            total as int == vram_sum(cs.take(i as int)),
        decreases cs.len() - i,
    {
        assert(cs.take(i + 1).drop_last() =~= cs.take(i as int));
        assert(i32::MIN <= vram_sum(cs.take(i + 1)) <= i32::MAX);
        let c = &components[i];
        let add: i32 = if c.found {
            match c.vram_mb {
                Some(v) => v,
                None => 0,
            }
        } else {
            0
        };
        total = total + add;
        i = i + 1;
    }
    assert(cs.take(cs.len() as int) =~= cs);
    total
}

/// Whether the bundle is complete: no component missing, at least four.
pub fn bundle_is_complete(components: &Vec<ScannedComponent>) -> (r: bool)
    ensures
        r == is_complete(components@),
{
    let mut i: usize = 0;
    while i < components.len()
        invariant
            i <= components@.len(),
            forall|k: int| 0 <= k < i ==> (#[trigger] components@[k]).found,
        decreases components@.len() - i,
    {
        if !components[i].found {
            return false;
        }
        i = i + 1;
    }
    components.len() >= 4
}

/// Whether a bundle requires its component in `role`: transformer, t5,
/// clip and vae are required, any other role is optional.
pub fn role_is_required(role: &str) -> (r: bool)
    ensures
        r == is_required_role(role@),
{
    str_equal(role, "transformer") || str_equal(role, "t5") || str_equal(role, "clip") || str_equal(role, "vae")
}

/// A bundle requires exactly its transformer, t5, clip and vae components:
/// `role_is_required` holds of these four roles and of no other.
pub proof fn lemma_required_roles(role: Seq<char>)
    ensures
        is_required_role(role) <==> (role == "transformer"@ || role == "t5"@ || role == "clip"@ || role
            == "vae"@),
        is_required_role("transformer"@),
        is_required_role("t5"@),
        is_required_role("clip"@),
        is_required_role("vae"@),
{
}

} // verus!
