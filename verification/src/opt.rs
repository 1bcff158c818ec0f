//! What a run of the renderer is asked for.
use vstd::prelude::*;
use vstd::string::StrSliceExecFns;

verus! {

/// The scenes that can be rendered.
#[derive(Clone, Copy, Debug, PartialEq, Eq, Structural)]
pub enum SceneSelector {
    Random,
    TwoSpheres,
    TwoPerlinSpheres,
    Earth,
    SimpleLight,
    CornellBox,
    CornellSmoke,
    FinalScene,
    Triangle,
    Teapot,
}

/// The options of a run: the width of the picture in pixels, the number of
/// samples for each pixel, and the scene.
#[derive(Clone, Copy, Debug, PartialEq, Eq, Structural)]
pub struct Opt {
    pub image_width: usize,
    pub samples_per_pixel: usize,
    pub scene: SceneSelector,
}

/// A letter in lower case; any other character as it is.
pub open spec fn lower(c: char) -> char {
    if 'A' <= c <= 'Z' {
        ((c as u8) + 32) as char
    } else {
        c
    }
}

/// A text with its letters in lower case.
pub open spec fn lowered(s: Seq<char>) -> Seq<char> {
    Seq::new(s.len(), |i: int| lower(s[i]))
}

/// The scene of a given name, whatever the case of its letters.
pub open spec fn scene_named(name: Seq<char>) -> Option<SceneSelector> {
    let l = lowered(name);
    if l == "random"@ {
        Some(SceneSelector::Random)
    } else if l == "two-spheres"@ {
        Some(SceneSelector::TwoSpheres)
    } else if l == "two-perlin-spheres"@ {
        Some(SceneSelector::TwoPerlinSpheres)
    } else if l == "earth"@ {
        Some(SceneSelector::Earth)
    } else if l == "simple-light"@ {
        Some(SceneSelector::SimpleLight)
    } else if l == "cornell-box"@ {
        Some(SceneSelector::CornellBox)
    } else if l == "cornell-smoke"@ {
        Some(SceneSelector::CornellSmoke)
    } else if l == "final-scene"@ {
        Some(SceneSelector::FinalScene)
    } else if l == "triangle"@ {
        Some(SceneSelector::Triangle)
    } else if l == "teapot"@ {
        Some(SceneSelector::Teapot)
    } else {
        None
    }
}

/// A letter in lower case; any other character as it is.
fn to_lower(c: char) -> (r: char)
    ensures
        r == lower(c),
{
    if 'A' <= c && c <= 'Z' {
        ((c as u8) + 32) as char
    } else {
        c
    }
}

/// Whether `name`, of `len` characters, is `wanted` but for the case of its
/// letters.
fn is_name(name: &str, len: usize, wanted: &str) -> (b: bool)
    requires
        len == name@.len(),
    ensures
        b == (lowered(name@) == wanted@),
{
    let n: usize = wanted.unicode_len();
    if n != len {
        return false;
    }
    let mut i: usize = 0;
    while i < n
        invariant
            i <= n,
            n == name@.len(),
            n == wanted@.len(),
            forall|k: int| 0 <= k < i ==> lower(name@[k]) == wanted@[k],
        decreases n - i,
    {
        if to_lower(name.get_char(i)) != wanted.get_char(i) {
            proof {
                assert(lowered(name@)[i as int] != wanted@[i as int]);
            }
            return false;
        }
        i += 1;
    }
    proof {
        assert(lowered(name@) =~= wanted@);
    }
    true
}

impl SceneSelector {
    /// The scene of a given name, whatever the case of its letters; `None` for
    /// a name that no scene has.
    pub fn from_name(name: &str) -> (scene: Option<SceneSelector>)
        ensures
            scene == scene_named(name@),
    {
        let len: usize = name.unicode_len();
        if is_name(name, len, "random") {
            Some(SceneSelector::Random)
        } else if is_name(name, len, "two-spheres") {
            Some(SceneSelector::TwoSpheres)
        } else if is_name(name, len, "two-perlin-spheres") {
            Some(SceneSelector::TwoPerlinSpheres)
        } else if is_name(name, len, "earth") {
            Some(SceneSelector::Earth)
        } else if is_name(name, len, "simple-light") {
            Some(SceneSelector::SimpleLight)
        } else if is_name(name, len, "cornell-box") {
            Some(SceneSelector::CornellBox)
        } else if is_name(name, len, "cornell-smoke") {
            Some(SceneSelector::CornellSmoke)
        } else if is_name(name, len, "final-scene") {
            Some(SceneSelector::FinalScene)
        } else if is_name(name, len, "triangle") {
            Some(SceneSelector::Triangle)
        } else if is_name(name, len, "teapot") {
            Some(SceneSelector::Teapot)
        } else {
            None
        }
    }

    /// The name of the scene.
    pub fn name(&self) -> (name: &'static str)
        ensures
            name@ == match self {
                SceneSelector::Random => "random"@,
                SceneSelector::TwoSpheres => "two-spheres"@,
                SceneSelector::TwoPerlinSpheres => "two-perlin-spheres"@,
                SceneSelector::Earth => "earth"@,
                SceneSelector::SimpleLight => "simple-light"@,
                SceneSelector::CornellBox => "cornell-box"@,
                SceneSelector::CornellSmoke => "cornell-smoke"@,
                SceneSelector::FinalScene => "final-scene"@,
                SceneSelector::Triangle => "triangle"@,
                SceneSelector::Teapot => "teapot"@,
            },
    {
        match self {
            SceneSelector::Random => "random",
            SceneSelector::TwoSpheres => "two-spheres",
            SceneSelector::TwoPerlinSpheres => "two-perlin-spheres",
            SceneSelector::Earth => "earth",
            SceneSelector::SimpleLight => "simple-light",
            SceneSelector::CornellBox => "cornell-box",
            SceneSelector::CornellSmoke => "cornell-smoke",
            SceneSelector::FinalScene => "final-scene",
            SceneSelector::Triangle => "triangle",
            SceneSelector::Teapot => "teapot",
        }
    }
}

impl Default for Opt {
    /// A picture 600 pixels wide of the random scene, with 64 samples for each
    /// pixel.
    fn default() -> (opt: Opt)
        ensures
            opt == (Opt { image_width: 600, samples_per_pixel: 64, scene: SceneSelector::Random }),
    {
        Opt { image_width: 600, samples_per_pixel: 64, scene: SceneSelector::Random }
    }
}

/// Every scene is found again by its own name.
pub proof fn lemma_scene_named_by_its_name(scene: SceneSelector)
    ensures
        scene_named(
            match scene {
                SceneSelector::Random => "random"@,
                SceneSelector::TwoSpheres => "two-spheres"@,
                SceneSelector::TwoPerlinSpheres => "two-perlin-spheres"@,
                SceneSelector::Earth => "earth"@,
                SceneSelector::SimpleLight => "simple-light"@,
                SceneSelector::CornellBox => "cornell-box"@,
                SceneSelector::CornellSmoke => "cornell-smoke"@,
                SceneSelector::FinalScene => "final-scene"@,
                SceneSelector::Triangle => "triangle"@,
                SceneSelector::Teapot => "teapot"@,
            },
        ) == Some(scene),
{
    reveal_strlit("random");
    reveal_strlit("two-spheres");
    reveal_strlit("two-perlin-spheres");
    reveal_strlit("earth");
    reveal_strlit("simple-light");
    reveal_strlit("cornell-box");
    reveal_strlit("cornell-smoke");
    reveal_strlit("final-scene");
    reveal_strlit("triangle");
    reveal_strlit("teapot");
    assert(lowered("random"@) =~= "random"@);
    assert(lowered("two-spheres"@) =~= "two-spheres"@);
    assert(lowered("two-perlin-spheres"@) =~= "two-perlin-spheres"@);
    assert(lowered("earth"@) =~= "earth"@);
    assert(lowered("simple-light"@) =~= "simple-light"@);
    assert(lowered("cornell-box"@) =~= "cornell-box"@);
    assert(lowered("cornell-smoke"@) =~= "cornell-smoke"@);
    assert(lowered("final-scene"@) =~= "final-scene"@);
    assert(lowered("triangle"@) =~= "triangle"@);
    assert(lowered("teapot"@) =~= "teapot"@);
    assert("random"@.len() == 6);
    assert("two-spheres"@.len() == 11);
    assert("two-perlin-spheres"@.len() == 18);
    assert("earth"@.len() == 5);
    assert("simple-light"@.len() == 12);
    assert("cornell-box"@.len() == 11);
    assert("cornell-smoke"@.len() == 13);
    assert("final-scene"@.len() == 11);
    assert("triangle"@.len() == 8);
    assert("teapot"@.len() == 6);
    assert("two-spheres"@[0] != "cornell-box"@[0]);
    assert("two-spheres"@[0] != "final-scene"@[0]);
    assert("cornell-box"@[0] != "final-scene"@[0]);
    assert("random"@[0] != "teapot"@[0]);
}

} // verus!
