//! What a package is built for: the package format, the architecture, the
//! image, and the cache key that ties a recipe to an image target.
use vstd::prelude::*;
use crate::text::str_eq;

verus! {

/// The package format a job produces.
#[derive(Clone, Copy, Debug, PartialEq, Eq, Structural, Hash)]
pub enum BuildTarget {
    Deb,
    Rpm,
    Pkg,
    Gzip,
}

/// The build target a name stands for, if any.
pub open spec fn target_named(s: Seq<char>) -> Option<BuildTarget> {
    if s == "deb"@ {
        Some(BuildTarget::Deb)
    } else if s == "rpm"@ {
        Some(BuildTarget::Rpm)
    } else if s == "pkg"@ {
        Some(BuildTarget::Pkg)
    } else if s == "gzip"@ {
        Some(BuildTarget::Gzip)
    } else {
        None
    }
}

impl BuildTarget {
    /// Reads a build target from its name: `deb`, `rpm`, `pkg` or `gzip`.
    pub fn try_from_str(s: &str) -> (r: Option<BuildTarget>)
        ensures
            r == target_named(s@),
    {
        if str_eq(s, "deb") {
            Some(BuildTarget::Deb)
        } else if str_eq(s, "rpm") {
            Some(BuildTarget::Rpm)
        } else if str_eq(s, "pkg") {
            Some(BuildTarget::Pkg)
        } else if str_eq(s, "gzip") {
            Some(BuildTarget::Gzip)
        } else {
            None
        }
    }
}

/// The machine architecture a package is built for.
#[allow(non_camel_case_types)]
#[derive(Clone, Copy, Debug, PartialEq, Eq, Structural, Hash)]
pub enum BuildArch {
    All,
    x86_64,
    x86,
    Arm,
    Armv7h,
    Arm64,
}

/// The architecture a name stands for, in any of the spellings the package
/// formats use.
pub open spec fn arch_named(s: Seq<char>) -> Option<BuildArch> {
    if s == "all"@ || s == "any"@ || s == "noarch"@ {
        Some(BuildArch::All)
    } else if s == "x86_64"@ || s == "amd64"@ {
        Some(BuildArch::x86_64)
    } else if s == "x86"@ || s == "i386"@ || s == "i686"@ {
        Some(BuildArch::x86)
    } else if s == "arm"@ || s == "armel"@ {
        Some(BuildArch::Arm)
    } else if s == "armv7h"@ || s == "armhf"@ {
        Some(BuildArch::Armv7h)
    } else if s == "arm64"@ || s == "aarch64"@ {
        Some(BuildArch::Arm64)
    } else {
        None
    }
}

/// The name of an architecture in Debian's spelling.
pub open spec fn deb_arch(a: BuildArch) -> Seq<char> {
    match a {
        BuildArch::All => "all"@,
        BuildArch::x86_64 => "amd64"@,
        BuildArch::x86 => "i386"@,
        BuildArch::Arm => "armel"@,
        BuildArch::Armv7h => "armhf"@,
        BuildArch::Arm64 => "arm64"@,
    }
}

/// The name of an architecture in the spelling of RPM and Arch packages.
pub open spec fn pkg_arch(a: BuildArch) -> Seq<char> {
    match a {
        BuildArch::All => "any"@,
        BuildArch::x86_64 => "x86_64"@,
        BuildArch::x86 => "i686"@,
        BuildArch::Arm => "arm"@,
        BuildArch::Armv7h => "armv7h"@,
        BuildArch::Arm64 => "aarch64"@,
    }
}

impl BuildArch {
    /// Reads an architecture from any of its spellings.
    pub fn try_from_str(s: &str) -> (r: Option<BuildArch>)
        ensures
            r == arch_named(s@),
    {
        if str_eq(s, "all") || str_eq(s, "any") || str_eq(s, "noarch") {
            Some(BuildArch::All)
        } else if str_eq(s, "x86_64") || str_eq(s, "amd64") {
            Some(BuildArch::x86_64)
        } else if str_eq(s, "x86") || str_eq(s, "i386") || str_eq(s, "i686") {
            Some(BuildArch::x86)
        } else if str_eq(s, "arm") || str_eq(s, "armel") {
            Some(BuildArch::Arm)
        } else if str_eq(s, "armv7h") || str_eq(s, "armhf") {
            Some(BuildArch::Armv7h)
        } else if str_eq(s, "arm64") || str_eq(s, "aarch64") {
            Some(BuildArch::Arm64)
        } else {
            None
        }
    }

    /// The architecture's name in a Debian package.
    pub fn deb_name(&self) -> (r: &'static str)
        ensures
            r@ == deb_arch(*self),
    {
        match self {
            BuildArch::All => "all",
            BuildArch::x86_64 => "amd64",
            BuildArch::x86 => "i386",
            BuildArch::Arm => "armel",
            BuildArch::Armv7h => "armhf",
            BuildArch::Arm64 => "arm64",
        }
    }

    /// The architecture's name in an RPM or Arch package.
    pub fn pkg_name(&self) -> (r: &'static str)
        ensures
            r@ == pkg_arch(*self),
    {
        match self {
            BuildArch::All => "any",
            BuildArch::x86_64 => "x86_64",
            BuildArch::x86 => "i686",
            BuildArch::Arm => "arm",
            BuildArch::Armv7h => "armv7h",
            BuildArch::Arm64 => "aarch64",
        }
    }
}

/// One configured image: its name, the package format built on it, and an
/// optional override of the operating system it runs.
#[derive(Debug)]
pub struct ImageTarget {
    pub image: String,
    pub build_target: BuildTarget,
    pub os: Option<String>,
}

/// The plain-value form of an image target.
pub struct ImageTargetView {
    pub image: Seq<char>,
    pub build_target: BuildTarget,
    pub os: Option<Seq<char>>,
}

/// The characters of an optional string.
pub open spec fn opt_view(o: Option<String>) -> Option<Seq<char>> {
    match o {
        Some(s) => Some(s@),
        None => None,
    }
}

/// A copy of an optional string.
pub fn copy_opt(o: &Option<String>) -> (r: Option<String>)
    ensures
        r == *o,
{
    match o {
        Some(s) => Some(s.clone()),
        None => None,
    }
}

/// Whether two optional strings hold the same characters.
pub fn opt_eq(a: &Option<String>, b: &Option<String>) -> (r: bool)
    ensures
        r == (opt_view(*a) == opt_view(*b)),
{
    match (a, b) {
        (Some(x), Some(y)) => str_eq(x.as_str(), y.as_str()),
        (None, None) => true,
        _ => false,
    }
}

impl View for ImageTarget {
    type V = ImageTargetView;

    open spec fn view(&self) -> ImageTargetView {
        ImageTargetView { image: self.image@, build_target: self.build_target, os: opt_view(self.os) }
    }
}

impl ImageTarget {
    /// An image target from its parts.
    pub fn new(image: &str, build_target: BuildTarget, os: Option<&str>) -> (r: ImageTarget)
        ensures
            r.image@ == image@,
            r.build_target == build_target,
            r.os.is_some() == os.is_some(),
            os matches Some(o) ==> r.os.unwrap()@ == o@,
    {
        let os = match os {
            Some(o) => Some(o.to_string()),
            None => None,
        };
        ImageTarget { image: image.to_string(), build_target, os }
    }

    /// A copy of this target.
    pub fn copy(&self) -> (r: ImageTarget)
        ensures
            r == *self,
    {
        ImageTarget { image: self.image.clone(), build_target: self.build_target, os: copy_opt(&self.os) }
    }
}

/// The cache key of a built image: a recipe's name and one image target.
#[derive(Debug)]
pub struct RecipeTarget {
    pub recipe: String,
    pub image_target: ImageTarget,
}

/// The plain-value form of a cache key.
pub struct RecipeTargetView {
    pub recipe: Seq<char>,
    pub image_target: ImageTargetView,
}

impl View for RecipeTarget {
    type V = RecipeTargetView;

    open spec fn view(&self) -> RecipeTargetView {
        RecipeTargetView { recipe: self.recipe@, image_target: self.image_target@ }
    }
}

impl RecipeTarget {
    /// The key of `recipe` built on `target`.
    pub fn new(recipe: String, image_target: ImageTarget) -> (r: RecipeTarget)
        ensures
            r.recipe == recipe,
            r.image_target == image_target,
    {
        RecipeTarget { recipe, image_target }
    }

    /// The image's name.
    pub fn image(&self) -> (r: &str)
        ensures
            r@ == self.image_target.image@,
    {
        self.image_target.image.as_str()
    }

    /// The package format.
    pub fn build_target(&self) -> (r: BuildTarget)
        ensures
            r == self.image_target.build_target,
    {
        self.image_target.build_target
    }

    /// A copy of this key.
    pub fn copy(&self) -> (r: RecipeTarget)
        ensures
            r == *self,
    {
        RecipeTarget { recipe: self.recipe.clone(), image_target: self.image_target.copy() }
    }

    /// Whether two keys name the same recipe and image target.
    pub fn same(&self, other: &RecipeTarget) -> (r: bool)
        ensures
            r == (self@ == other@),
    {
        str_eq(self.recipe.as_str(), other.recipe.as_str()) && str_eq(
            self.image_target.image.as_str(),
            other.image_target.image.as_str(),
        ) && self.image_target.build_target == other.image_target.build_target && opt_eq(
            &self.image_target.os,
            &other.image_target.os,
        )
    }
}

} // verus!
