//! Images referenced from Markdown: resolving a destination to a local file,
//! checking its format, and registering it under a generated virtual path.
use vstd::prelude::*;
use crate::text::{
    concat, contains, decimal, decimal_string, is_digit, lemma_decimal_digits,
    lemma_decimal_injective, lowered, starts_with, str_contains, str_eq, str_starts_with,
    str_strip_prefix, to_lowercase, trim, trim_str,
};
use crate::paths::{
    extension_of, is_absolute, joined, names_same_path, path_eq, path_extension, path_is_absolute,
    path_join,
};

verus! {

/// One image resolved from Markdown, mapped to the virtual path the generated
/// Typst refers to it by.
pub struct Asset {
    pub virtual_path: String,
    pub real_path: String,
}

pub struct AssetView {
    pub virtual_path: Seq<char>,
    pub real_path: Seq<char>,
}

impl View for Asset {
    type V = AssetView;

    open spec fn view(&self) -> AssetView {
        AssetView { virtual_path: self.virtual_path@, real_path: self.real_path@ }
    }
}

/// Collects the images referenced across every document and header zone in a
/// single render, so the compiler can serve them and indices never collide.
pub struct AssetRegistry {
    assets: Vec<Asset>,
    warnings: Vec<String>,
}

pub struct RegistryView {
    pub assets: Seq<AssetView>,
    pub warnings: Seq<Seq<char>>,
}

/// The prefix every virtual path of the asset at `index` starts with.
pub open spec fn virtual_prefix(index: nat) -> Seq<char> {
    "/assets/"@ + decimal(index) + "."@
}

/// The virtual path of the asset at `index` with the given extension.
pub open spec fn virtual_path_for(index: nat, ext: Seq<char>) -> Seq<char> {
    virtual_prefix(index) + ext
}

/// Every asset's virtual path names its index, and no file is held twice:
/// no real path names the same path as an earlier one.
pub open spec fn registry_wf(r: RegistryView) -> bool {
    &&& forall|i: int|
        0 <= i < r.assets.len() ==> starts_with(
            #[trigger] r.assets[i].virtual_path,
            virtual_prefix(i as nat),
        )
    &&& forall|i: int, j: int|
        0 <= i < j < r.assets.len() ==> !names_same_path(
            #[trigger] r.assets[i].real_path,
            #[trigger] r.assets[j].real_path,
        )
}

/// The first asset held for a file, if any: the first whose real path names
/// the same path.
pub open spec fn asset_index(assets: Seq<AssetView>, real_path: Seq<char>) -> Option<int>
    decreases assets.len(),
{
    if assets.len() == 0 {
        None
    } else {
        match asset_index(assets.drop_last(), real_path) {
            Some(i) => Some(i),
            None => if names_same_path(assets.last().real_path, real_path) {
                Some(assets.len() - 1)
            } else {
                None
            },
        }
    }
}

/// The registry after registering a file, and the virtual path to use for it.
pub open spec fn register_spec(r: RegistryView, real_path: Seq<char>, ext: Seq<char>) -> (
    RegistryView,
    Seq<char>,
) {
    match asset_index(r.assets, real_path) {
        Some(i) => (r, r.assets[i].virtual_path),
        None => {
            let v = virtual_path_for(r.assets.len(), ext);
            (
                RegistryView {
                    assets: r.assets.push(AssetView { virtual_path: v, real_path: real_path }),
                    ..r
                },
                v,
            )
        },
    }
}

proof fn lemma_asset_index(assets: Seq<AssetView>, real_path: Seq<char>)
    ensures
        asset_index(assets, real_path) matches Some(i) ==> 0 <= i < assets.len()
            && names_same_path(assets[i].real_path, real_path) && forall|k: int|
            0 <= k < i ==> !names_same_path(#[trigger] assets[k].real_path, real_path),
        asset_index(assets, real_path) is None ==> forall|k: int|
            0 <= k < assets.len() ==> !names_same_path(#[trigger] assets[k].real_path, real_path),
    decreases assets.len(),
{
    if assets.len() > 0 {
        lemma_asset_index(assets.drop_last(), real_path);
        assert forall|k: int| 0 <= k < assets.len() - 1 implies #[trigger] assets[k]
            == assets.drop_last()[k] by {}
    }
}

proof fn lemma_prefixes_agree(v: Seq<char>, i: nat, j: nat)
    requires
        starts_with(v, virtual_prefix(i)),
        starts_with(v, virtual_prefix(j)),
    ensures
        i == j,
{
    reveal_strlit("/assets/");
    reveal_strlit(".");
    lemma_decimal_digits(i);
    lemma_decimal_digits(j);
    let di = decimal(i);
    let dj = decimal(j);
    let pi = virtual_prefix(i);
    let pj = virtual_prefix(j);
    assert(pi.len() == 8 + di.len() + 1);
    assert(pj.len() == 8 + dj.len() + 1);
    assert(v.subrange(0, pi.len() as int) == pi);
    assert(v.subrange(0, pj.len() as int) == pj);
    if di.len() < dj.len() {
        assert(pi[8 + di.len() as int] == '.');
        assert(v[8 + di.len() as int] == '.');
        assert(pj[8 + di.len() as int] == dj[di.len() as int]);
        assert(is_digit(dj[di.len() as int]));
    } else if dj.len() < di.len() {
        assert(pj[8 + dj.len() as int] == '.');
        assert(v[8 + dj.len() as int] == '.');
        assert(pi[8 + dj.len() as int] == di[dj.len() as int]);
        assert(is_digit(di[dj.len() as int]));
    } else {
        assert forall|k: int| 0 <= k < di.len() implies di[k] == dj[k] by {
            assert(pi[8 + k] == di[k]);
            assert(pj[8 + k] == dj[k]);
            assert(v[8 + k] == pi[8 + k]);
            assert(v[8 + k] == pj[8 + k]);
        }
        assert(di =~= dj);
        lemma_decimal_injective(i, j);
    }
}

/// No two images of a registry share a virtual path, so references in the
/// generated Typst never collide.
pub proof fn law_virtual_paths_distinct(r: RegistryView, i: int, j: int)
    requires
        registry_wf(r),
        0 <= i < r.assets.len(),
        0 <= j < r.assets.len(),
        i != j,
    ensures
        r.assets[i].virtual_path != r.assets[j].virtual_path,
{
    if r.assets[i].virtual_path == r.assets[j].virtual_path {
        lemma_prefixes_agree(r.assets[i].virtual_path, i as nat, j as nat);
    }
}

/// Registering a file that is already held changes nothing and gives back
/// the virtual path it was first registered under; registering keeps the
/// registry well-formed.
pub proof fn law_register_reuses(r: RegistryView, real_path: Seq<char>, ext: Seq<char>, ext2: Seq<char>)
    requires
        registry_wf(r),
    ensures
        registry_wf(register_spec(r, real_path, ext).0),
        ({
            let (r1, v1) = register_spec(r, real_path, ext);
            let (r2, v2) = register_spec(r1, real_path, ext2);
            r2 == r1 && v2 == v1
        }),
{
    lemma_register_wf(r, real_path, ext);
    let (r1, v1) = register_spec(r, real_path, ext);
    lemma_asset_index(r.assets, real_path);
    lemma_asset_index(r1.assets, real_path);
    if asset_index(r.assets, real_path) is None {
        let n = r.assets.len() as int;
        assert(r1.assets[n].real_path == real_path);
        assert(asset_index(r1.assets, real_path) == Some(n));
    } else {
        let i = asset_index(r.assets, real_path)->0;
        assert(r1 == r);
    }
}

proof fn lemma_register_wf(r: RegistryView, real_path: Seq<char>, ext: Seq<char>)
    requires
        registry_wf(r),
    ensures
        registry_wf(register_spec(r, real_path, ext).0),
{
    lemma_asset_index(r.assets, real_path);
    if asset_index(r.assets, real_path) is None {
        let r1 = register_spec(r, real_path, ext).0;
        let n = r.assets.len() as int;
        assert forall|i: int| 0 <= i < r1.assets.len() implies starts_with(
            #[trigger] r1.assets[i].virtual_path,
            virtual_prefix(i as nat),
        ) by {
            if i == n {
                let v = r1.assets[i].virtual_path;
                assert(v =~= virtual_prefix(n as nat) + ext);
                assert(v.subrange(0, virtual_prefix(n as nat).len() as int) =~= virtual_prefix(
                    n as nat,
                ));
            } else {
                assert(r1.assets[i] == r.assets[i]);
            }
        }
        assert forall|i: int, j: int| 0 <= i < j < r1.assets.len() implies !names_same_path(
            #[trigger] r1.assets[i].real_path,
            #[trigger] r1.assets[j].real_path,
        ) by {
            assert(r1.assets[i] == r.assets[i]);
            if j < n {
                assert(r1.assets[j] == r.assets[j]);
            }
        }
    }
}

/// The first asset held for a file holds that path, and where there is none,
/// no asset does.
pub proof fn lemma_asset_index_pub(assets: Seq<AssetView>, real_path: Seq<char>)
    ensures
        asset_index(assets, real_path) matches Some(i) ==> 0 <= i < assets.len()
            && names_same_path(assets[i].real_path, real_path),
        asset_index(assets, real_path) is None ==> forall|k: int|
            0 <= k < assets.len() ==> !names_same_path(#[trigger] assets[k].real_path, real_path),
{
    lemma_asset_index(assets, real_path);
}

/// Registering keeps the assets held before, and adds at most the file given.
pub proof fn lemma_register_keeps(r: RegistryView, real_path: Seq<char>, ext: Seq<char>)
    ensures
        ({
            let r1 = register_spec(r, real_path, ext).0;
            &&& r1.warnings == r.warnings
            &&& r1.assets.len() >= r.assets.len()
            &&& r1.assets.subrange(0, r.assets.len() as int) == r.assets
            &&& forall|i: int| r.assets.len() <= i < r1.assets.len() ==> #[trigger] r1.assets[i].real_path
                == real_path
        }),
{
    let r1 = register_spec(r, real_path, ext).0;
    assert(r1.assets.subrange(0, r.assets.len() as int) =~= r.assets);
}

impl AssetRegistry {
    pub closed spec fn view(&self) -> RegistryView {
        RegistryView {
            assets: self.assets@.map_values(|a: Asset| a@),
            warnings: self.warnings@.map_values(|w: String| w@),
        }
    }

    /// The registry's well-formedness (see `registry_wf`), which every
    /// operation keeps.
    #[verifier::type_invariant]
    spec fn wf(&self) -> bool {
        registry_wf(self.view())
    }

    /// An empty registry.
    pub fn new() -> (r: Self)
        ensures
            r.view().assets.len() == 0,
            r.view().warnings.len() == 0,
    {
        let r = AssetRegistry { assets: Vec::new(), warnings: Vec::new() };
        assert(r.view().assets =~= Seq::<AssetView>::empty());
        r
    }

    /// The images registered so far, in registration order. They are
    /// well-formed: each virtual path names its index and no file is held
    /// twice.
    pub fn assets(&self) -> (r: &[Asset])
        ensures
            r@.map_values(|a: Asset| a@) == self.view().assets,
            registry_wf(self.view()),
    {
        proof {
            use_type_invariant(self);
        }
        self.assets.as_slice()
    }

    /// The warnings recorded so far, in order.
    pub fn warnings(&self) -> (r: &[String])
        ensures
            r@.map_values(|w: String| w@) == self.view().warnings,
    {
        self.warnings.as_slice()
    }

    /// Records a warning.
    pub fn warn(&mut self, message: String)
        ensures
            final(self).view().assets == old(self).view().assets,
            final(self).view().warnings == old(self).view().warnings.push(message@),
    {
        proof {
            use_type_invariant(&*self);
        }
        let ghost assets0 = self.view().assets;
        let mut warnings: Vec<String> = Vec::new();
        std::mem::swap(&mut warnings, &mut self.warnings);
        warnings.push(message);
        assert(self.view().assets == assets0);
        self.warnings = warnings;
        assert(self.view().warnings =~= old(self).view().warnings.push(message@));
        assert(self.view().assets =~= old(self).view().assets);
    }

    /// Registers a resolved image and returns the virtual path to reference it
    /// by. Re-registering the same file (a path std counts as equal to one
    /// already held) reuses the existing entry, so the bytes are only held once.
    pub fn register(&mut self, real_path: String, ext: &str) -> (v: String)
        ensures
            (final(self).view(), v@) == register_spec(old(self).view(), real_path@, ext@),
    {
        proof {
            use_type_invariant(&*self);
            lemma_asset_index(self.view().assets, real_path@);
        }
        let ghost r0 = self.view();
        let mut i: usize = 0;
        while i < self.assets.len()
            invariant
                i <= self.assets.len(),
                self.view() == r0,
                registry_wf(r0),
                forall|k: int| 0 <= k < i ==> !names_same_path(#[trigger] r0.assets[k].real_path, real_path@),
            decreases self.assets.len() - i,
        {
            let same = path_eq(self.assets[i].real_path.as_str(), real_path.as_str());
            assert(r0.assets[i as int] == self.assets@[i as int]@);
            assert(same == names_same_path(r0.assets[i as int].real_path, real_path@));
            if same {
                proof {
                    lemma_asset_index(r0.assets, real_path@);
                    match asset_index(r0.assets, real_path@) {
                        None => {
                            assert(!names_same_path(r0.assets[i as int].real_path, real_path@));
                        },
                        Some(j) => {
                            if j < i {
                                assert(!names_same_path(r0.assets[j].real_path, real_path@));
                            } else if j > i {
                                assert(!names_same_path(r0.assets[i as int].real_path, real_path@));
                            }
                        },
                    }
                }
                assert(asset_index(r0.assets, real_path@) == Some(i as int));
                return self.assets[i].virtual_path.clone();
            }
            i += 1;
        }
        assert(asset_index(r0.assets, real_path@) is None);
        let mut v = String::from_str("/assets/");
        let n = decimal_string(self.assets.len());
        v.append(n.as_str());
        v.append(".");
        v.append(ext);
        proof {
            lemma_register_wf(r0, real_path@, ext@);
        }
        let result = v.clone();
        let mut assets: Vec<Asset> = Vec::new();
        std::mem::swap(&mut assets, &mut self.assets);
        assets.push(Asset { virtual_path: v, real_path });
        assert(assets@.map_values(|a: Asset| a@) =~= register_spec(r0, real_path@, ext@).0.assets);
        self.assets = assets;
        assert(self.view().assets =~= register_spec(r0, real_path@, ext@).0.assets);
        assert(self.view().warnings =~= r0.warnings);
        result
    }
}

// ---------------------------------------------------------------------------
// Resolving a Markdown image destination
// ---------------------------------------------------------------------------

/// Where images may be found: the directory a document came from, the home
/// directory that `~/` stands for, and the candidate files that exist.
pub struct ImageContext {
    pub base: Option<String>,
    pub home: Option<String>,
    pub existing_files: Vec<String>,
}

pub struct ImageContextView {
    pub base: Option<Seq<char>>,
    pub home: Option<Seq<char>>,
    pub existing_files: Seq<Seq<char>>,
}

impl View for ImageContext {
    type V = ImageContextView;

    open spec fn view(&self) -> ImageContextView {
        ImageContextView {
            base: match self.base {
                Some(b) => Some(b@),
                None => None,
            },
            home: match self.home {
                Some(h) => Some(h@),
                None => None,
            },
            existing_files: self.existing_files@.map_values(|f: String| f@),
        }
    }
}

/// The home directory, where one is set to a non-empty value.
pub open spec fn usable_home(home: Option<Seq<char>>) -> Option<Seq<char>> {
    match home {
        Some(h) => if h.len() > 0 {
            Some(h)
        } else {
            None
        },
        None => None,
    }
}

/// The file an image destination stands for, before it is checked on disk;
/// or why it cannot be used. Remote and `data:` sources are refused rather
/// than fetched.
pub open spec fn plan_image_path(
    dest: Seq<char>,
    base: Option<Seq<char>>,
    home: Option<Seq<char>>,
) -> Result<Seq<char>, Seq<char>> {
    let d = trim(dest);
    if d.len() == 0 {
        Err("empty image path"@)
    } else if starts_with(d, "data:"@) {
        Err("data: URIs are not supported"@)
    } else if contains(d, "://"@) {
        Err("remote images are not fetched: "@ + d)
    } else {
        let expanded: Result<Seq<char>, Seq<char>> = if starts_with(d, "~/"@) {
            match usable_home(home) {
                Some(h) => Ok(joined(h, d.skip(2))),
                None => Err("cannot expand '~' in "@ + d + ": no home directory"@),
            }
        } else {
            Ok(d)
        };
        match expanded {
            Err(e) => Err(e),
            Ok(p) => if is_absolute(p) {
                Ok(p)
            } else {
                match base {
                    Some(b) => Ok(joined(b, p)),
                    None => Ok(p),
                }
            },
        }
    }
}

/// The local file an image destination resolves to, which must be among the
/// files that exist; or why it cannot be used.
pub open spec fn resolve_image_spec(dest: Seq<char>, ctx: ImageContextView) -> Result<
    Seq<char>,
    Seq<char>,
> {
    match plan_image_path(dest, ctx.base, ctx.home) {
        Err(e) => Err(e),
        Ok(p) => if ctx.existing_files.contains(p) {
            Ok(p)
        } else {
            Err("image not found: "@ + p)
        },
    }
}

/// The image formats Typst can decode.
pub open spec fn is_supported_extension(e: Seq<char>) -> bool {
    e == "png"@ || e == "jpg"@ || e == "jpeg"@ || e == "gif"@ || e == "svg"@ || e == "webp"@
}

/// The lowercase extension of an image file, which must be one Typst can
/// decode; or why it cannot be used.
pub open spec fn image_extension_spec(path: Seq<char>) -> Result<Seq<char>, Seq<char>> {
    match extension_of(path) {
        None => Err("image has no file extension: "@ + path),
        Some(e) => {
            let l = lowered(e);
            if is_supported_extension(l) {
                Ok(l)
            } else {
                Err(
                    "unsupported image format '"@ + l + "' ("@ + path
                        + "); supported: png, jpg, jpeg, gif, svg, webp"@,
                )
            }
        },
    }
}

/// The image formats accepted are exactly PNG, JPEG (`jpg` or `jpeg`), GIF,
/// SVG and WebP, told by the file's extension compared lowercased: a path
/// whose extension lowercases to one of `png`, `jpg`, `jpeg`, `gif`, `svg`,
/// `webp` gives that lowercase extension, and any other path is refused.
pub proof fn law_supported_image_formats(path: Seq<char>)
    ensures
        match extension_of(path) {
            None => image_extension_spec(path) is Err,
            Some(e) => {
                let l = lowered(e);
                if l == "png"@ || l == "jpg"@ || l == "jpeg"@ || l == "gif"@ || l == "svg"@ || l
                    == "webp"@ {
                    image_extension_spec(path) == Ok::<Seq<char>, Seq<char>>(l)
                } else {
                    image_extension_spec(path) is Err
                }
            },
        },
{
}

/// The file an image destination stands for, before it is checked on disk
/// (see `plan_image_path`).
pub fn plan_image(dest: &str, base: Option<&str>, home: Option<&str>) -> (r: Result<
    String,
    String,
>)
    ensures
        match (r, plan_image_path(
            dest@,
            match base {
                Some(b) => Some(b@),
                None => None,
            },
            match home {
                Some(h) => Some(h@),
                None => None,
            },
        )) {
            (Ok(p), Ok(q)) => p@ == q,
            (Err(e), Err(f)) => e@ == f,
            _ => false,
        },
{
    proof {
        reveal_strlit("~/");
    }
    let d = trim_str(dest);
    if d.as_str().unicode_len() == 0 {
        return Err(String::from_str("empty image path"));
    }
    if str_starts_with(d.as_str(), "data:") {
        return Err(String::from_str("data: URIs are not supported"));
    }
    if str_contains(d.as_str(), "://") {
        return Err(concat("remote images are not fetched: ", d.as_str()));
    }
    let expanded = match str_strip_prefix(d.as_str(), "~/") {
        Some(rest) => {
            let h = match home {
                Some(h) => if h.unicode_len() > 0 {
                    Some(h)
                } else {
                    None
                },
                None => None,
            };
            match h {
                Some(h) => path_join(h, rest.as_str()),
                None => {
                    let mut e = String::from_str("cannot expand '~' in ");
                    e.append(d.as_str());
                    e.append(": no home directory");
                    return Err(e);
                },
            }
        },
        None => d,
    };
    if path_is_absolute(expanded.as_str()) {
        Ok(expanded)
    } else {
        match base {
            Some(b) => Ok(path_join(b, expanded.as_str())),
            None => Ok(expanded),
        }
    }
}

/// Resolves a Markdown image destination to a readable local file (see
/// `resolve_image_spec`).
pub fn resolve_image_path(dest: &str, ctx: &ImageContext) -> (r: Result<String, String>)
    ensures
        match (r, resolve_image_spec(dest@, ctx@)) {
            (Ok(p), Ok(q)) => p@ == q,
            (Err(e), Err(f)) => e@ == f,
            _ => false,
        },
{
    let base = match &ctx.base {
        Some(b) => Some(b.as_str()),
        None => None,
    };
    let home = match &ctx.home {
        Some(h) => Some(h.as_str()),
        None => None,
    };
    let planned = plan_image(dest, base, home);
    match planned {
        Err(e) => Err(e),
        Ok(p) => {
            if contains_string(&ctx.existing_files, p.as_str()) {
                Ok(p)
            } else {
                Err(concat("image not found: ", p.as_str()))
            }
        },
    }
}

/// Whether a list of strings holds one with the given text.
pub fn contains_string(list: &Vec<String>, s: &str) -> (r: bool)
    ensures
        r == list@.map_values(|f: String| f@).contains(s@),
{
    let ghost views = list@.map_values(|f: String| f@);
    let mut i: usize = 0;
    while i < list.len()
        invariant
            i <= list.len(),
            views == list@.map_values(|f: String| f@),
            forall|k: int| 0 <= k < i ==> views[k] != s@,
        decreases list.len() - i,
    {
        if str_eq(list[i].as_str(), s) {
            assert(views[i as int] == s@);
            return true;
        }
        i += 1;
    }
    false
}

/// The extension of an image file, lowercased, which must be a format Typst
/// can decode (see `image_extension_spec`).
pub fn image_extension(path: &str) -> (r: Result<String, String>)
    ensures
        match (r, image_extension_spec(path@)) {
            (Ok(p), Ok(q)) => p@ == q,
            (Err(e), Err(f)) => e@ == f,
            _ => false,
        },
{
    match path_extension(path) {
        None => Err(concat("image has no file extension: ", path)),
        Some(e) => {
            let l = to_lowercase(e.as_str());
            let ls = l.as_str();
            if str_eq(ls, "png") || str_eq(ls, "jpg") || str_eq(ls, "jpeg") || str_eq(ls, "gif")
                || str_eq(ls, "svg") || str_eq(ls, "webp") {
                Ok(l)
            } else {
                let mut m = String::from_str("unsupported image format '");
                m.append(ls);
                m.append("' (");
                m.append(path);
                m.append("); supported: png, jpg, jpeg, gif, svg, webp");
                Err(m)
            }
        },
    }
}

} // verus!
