//! Configuration for header/footer zones and page defaults.
//!
//! Three layers compose, lowest precedence first: the user config directory,
//! the nearest ancestor `.mdpdf.toml`, then an explicit `--config` path.
//! Command-line flags override all of them. Numbers (millimetres and points)
//! are of type `N`; the merging never looks at them.
use vstd::prelude::*;
use crate::text::string_views;
use crate::paths::{joined, parent_of, path_join, path_parent};
use crate::assets::contains_string;

verus! {

/// The name of a project configuration file.
pub const PROJECT_CONFIG_NAME: &'static str = ".mdpdf.toml";

/// The `[header]` or `[footer]` table of a configuration file.
#[derive(Clone, Debug)]
pub struct BandFile<N> {
    pub left: Option<String>,
    pub center: Option<String>,
    pub right: Option<String>,
    pub image_height: Option<N>,
    pub font_size: Option<N>,
}

/// The `[page]` table of a configuration file.
#[derive(Clone, Debug)]
pub struct PageFile<N> {
    pub size: Option<String>,
    pub margin: Option<N>,
    pub font_size: Option<N>,
    pub title: Option<String>,
}

/// One configuration file.
#[derive(Clone, Debug)]
pub struct ConfigFile<N> {
    pub header: BandFile<N>,
    pub footer: BandFile<N>,
    pub page: PageFile<N>,
}

impl<N> Default for BandFile<N> {
    fn default() -> (b: Self)
        ensures
            b.left is None && b.center is None && b.right is None,
            b.image_height is None && b.font_size is None,
    {
        BandFile { left: None, center: None, right: None, image_height: None, font_size: None }
    }
}

impl<N> Default for PageFile<N> {
    fn default() -> (p: Self)
        ensures
            p.size is None && p.margin is None && p.font_size is None && p.title is None,
    {
        PageFile { size: None, margin: None, font_size: None, title: None }
    }
}

impl<N> Default for ConfigFile<N> {
    fn default() -> (c: Self)
        ensures
            c.header.left is None && c.header.center is None && c.header.right is None,
            c.header.image_height is None && c.header.font_size is None,
            c.footer.left is None && c.footer.center is None && c.footer.right is None,
            c.footer.image_height is None && c.footer.font_size is None,
            c.page.size is None && c.page.margin is None && c.page.font_size is None
                && c.page.title is None,
    {
        ConfigFile { header: BandFile::default(), footer: BandFile::default(), page: PageFile::default() }
    }
}

/// One zone's Markdown, paired with the directory of the config file that set
/// it. Relative image paths resolve against that directory, so a logo in the
/// user config keeps working when a project config overrides a different zone.
#[derive(Clone, Debug)]
pub struct Zone {
    pub markdown: String,
    pub base: String,
}

pub struct ZoneView {
    pub markdown: Seq<char>,
    pub base: Seq<char>,
}

impl View for Zone {
    type V = ZoneView;

    open spec fn view(&self) -> ZoneView {
        ZoneView { markdown: self.markdown@, base: self.base@ }
    }
}

pub open spec fn zone_opt_view(z: Option<Zone>) -> Option<ZoneView> {
    match z {
        Some(z) => Some(z@),
        None => None,
    }
}

/// A header or footer as merged from the configuration files.
#[derive(Clone, Debug)]
pub struct Band<N> {
    pub left: Option<Zone>,
    pub center: Option<Zone>,
    pub right: Option<Zone>,
    pub image_height_mm: Option<N>,
    pub font_size_pt: Option<N>,
}

impl<N> Default for Band<N> {
    fn default() -> (b: Self)
        ensures
            b.left is None && b.center is None && b.right is None,
            b.image_height_mm is None && b.font_size_pt is None,
    {
        Band { left: None, center: None, right: None, image_height_mm: None, font_size_pt: None }
    }
}

/// The value set later where it is set, the earlier one otherwise.
pub open spec fn later_wins<T>(earlier: Option<T>, later: Option<T>) -> Option<T> {
    match later {
        Some(v) => Some(v),
        None => earlier,
    }
}

/// A zone set by a file in `dir`.
pub open spec fn zone_from(markdown: Option<String>, dir: Seq<char>) -> Option<ZoneView> {
    match markdown {
        Some(m) => Some(ZoneView { markdown: m@, base: dir }),
        None => None,
    }
}

fn zone_in(markdown: Option<String>, dir: &str) -> (z: Option<Zone>)
    ensures
        zone_opt_view(z) == zone_from(markdown, dir@),
{
    match markdown {
        Some(m) => Some(Zone { markdown: m, base: dir.to_owned() }),
        None => None,
    }
}

impl<N> Band<N> {
    /// Whether no zone is set.
    pub fn is_empty(&self) -> (r: bool)
        ensures
            r == (self.left is None && self.center is None && self.right is None),
    {
        self.left.is_none() && self.center.is_none() && self.right.is_none()
    }

    /// Applies one file's band table on top of this band: each field the file
    /// sets wins, each other field is kept, and a zone the file sets resolves
    /// its images against `dir`.
    pub fn overlay(&mut self, file: BandFile<N>, dir: &str)
        ensures
            zone_opt_view(final(self).left) == later_wins(
                zone_opt_view(old(self).left),
                zone_from(file.left, dir@),
            ),
            zone_opt_view(final(self).center) == later_wins(
                zone_opt_view(old(self).center),
                zone_from(file.center, dir@),
            ),
            zone_opt_view(final(self).right) == later_wins(
                zone_opt_view(old(self).right),
                zone_from(file.right, dir@),
            ),
            final(self).image_height_mm == later_wins(old(self).image_height_mm, file.image_height),
            final(self).font_size_pt == later_wins(old(self).font_size_pt, file.font_size),
    {
        if let Some(z) = zone_in(file.left, dir) {
            self.left = Some(z);
        }
        if let Some(z) = zone_in(file.center, dir) {
            self.center = Some(z);
        }
        if let Some(z) = zone_in(file.right, dir) {
            self.right = Some(z);
        }
        if let Some(v) = file.image_height {
            self.image_height_mm = Some(v);
        }
        if let Some(v) = file.font_size {
            self.font_size_pt = Some(v);
        }
    }
}

/// The merged configuration of a render.
#[derive(Clone, Debug)]
pub struct Config<N> {
    pub header: Band<N>,
    pub footer: Band<N>,
    pub page_size: Option<String>,
    pub margin_mm: Option<N>,
    pub font_size_pt: Option<N>,
    pub title: Option<String>,
}

impl<N> Default for Config<N> {
    fn default() -> (c: Self)
        ensures
            c.header.left is None && c.header.center is None && c.header.right is None,
            c.header.image_height_mm is None && c.header.font_size_pt is None,
            c.footer.left is None && c.footer.center is None && c.footer.right is None,
            c.footer.image_height_mm is None && c.footer.font_size_pt is None,
            c.page_size is None && c.margin_mm is None && c.font_size_pt is None && c.title is None,
    {
        Config {
            header: Band::default(),
            footer: Band::default(),
            page_size: None,
            margin_mm: None,
            font_size_pt: None,
            title: None,
        }
    }
}

pub open spec fn opt_string(o: Option<String>) -> Option<Seq<char>> {
    match o {
        Some(s) => Some(s@),
        None => None,
    }
}

/// The band after a file's band table is applied (see `Band::overlay`).
pub open spec fn band_after<N>(b: Band<N>, f: BandFile<N>, dir: Seq<char>) -> (
    Option<ZoneView>,
    Option<ZoneView>,
    Option<ZoneView>,
    Option<N>,
    Option<N>,
) {
    (
        later_wins(zone_opt_view(b.left), zone_from(f.left, dir)),
        later_wins(zone_opt_view(b.center), zone_from(f.center, dir)),
        later_wins(zone_opt_view(b.right), zone_from(f.right, dir)),
        later_wins(b.image_height_mm, f.image_height),
        later_wins(b.font_size_pt, f.font_size),
    )
}

pub open spec fn band_fields<N>(b: Band<N>) -> (
    Option<ZoneView>,
    Option<ZoneView>,
    Option<ZoneView>,
    Option<N>,
    Option<N>,
) {
    (
        zone_opt_view(b.left),
        zone_opt_view(b.center),
        zone_opt_view(b.right),
        b.image_height_mm,
        b.font_size_pt,
    )
}

impl<N> Config<N> {
    /// Applies one config file on top of this one. Later calls win field by
    /// field, so a project config that sets only `[footer]` keeps the user
    /// config's header.
    pub fn overlay(&mut self, file: ConfigFile<N>, dir: &str)
        ensures
            band_fields(final(self).header) == band_after(old(self).header, file.header, dir@),
            band_fields(final(self).footer) == band_after(old(self).footer, file.footer, dir@),
            opt_string(final(self).page_size) == later_wins(
                opt_string(old(self).page_size),
                opt_string(file.page.size),
            ),
            final(self).margin_mm == later_wins(old(self).margin_mm, file.page.margin),
            final(self).font_size_pt == later_wins(old(self).font_size_pt, file.page.font_size),
            opt_string(final(self).title) == later_wins(
                opt_string(old(self).title),
                opt_string(file.page.title),
            ),
    {
        let ConfigFile { header, footer, page } = file;
        self.header.overlay(header, dir);
        self.footer.overlay(footer, dir);
        if let Some(v) = page.size {
            self.page_size = Some(v);
        }
        if let Some(v) = page.margin {
            self.margin_mm = Some(v);
        }
        if let Some(v) = page.font_size {
            self.font_size_pt = Some(v);
        }
        if let Some(v) = page.title {
            self.title = Some(v);
        }
    }
}

/// A file whose band table sets nothing leaves the band as it was: a project
/// config that sets only `[footer]` keeps the header of the user config.
pub proof fn law_unset_band_keeps_earlier<N>(b: Band<N>, f: BandFile<N>, dir: Seq<char>)
    requires
        f.left is None,
        f.center is None,
        f.right is None,
        f.image_height is None,
        f.font_size is None,
    ensures
        band_after(b, f, dir) == band_fields(b),
{
}

/// Merging is per field and the last file to set a field wins: after files
/// `a` then `b` are applied, each field holds `b`'s value where `b` sets it,
/// else `a`'s where `a` sets it, else the value before either.
pub proof fn law_later_files_win<T>(before: Option<T>, a: Option<T>, b: Option<T>)
    ensures
        later_wins(later_wins(before, a), b) == match b {
            Some(v) => Some(v),
            None => match a {
                Some(v) => Some(v),
                None => before,
            },
        },
        b is None ==> later_wins(later_wins(before, a), b) == later_wins(before, a),
{
}

// ---------------------------------------------------------------------------
// Where configuration comes from
// ---------------------------------------------------------------------------

/// A configuration file to read: its path, and whether it must exist (a
/// path the user named) or may be missing (a discovered one).
pub struct ConfigSource {
    pub path: String,
    pub required: bool,
}

pub struct SourceView {
    pub path: Seq<char>,
    pub required: bool,
}

pub open spec fn source_views(v: Seq<ConfigSource>) -> Seq<SourceView> {
    v.map_values(|s: ConfigSource| SourceView { path: s.path@, required: s.required })
}

/// The files a render reads, lowest precedence first: the user config and the
/// project config, which may be missing, then the explicit one, which must
/// exist. With discovery switched off only the explicit one is read: the
/// switch suppresses discovery, not a path the user named outright.
pub open spec fn config_sources_spec(
    no_config: bool,
    user: Option<Seq<char>>,
    project: Option<Seq<char>>,
    explicit: Option<Seq<char>>,
) -> Seq<SourceView> {
    let named = match explicit {
        Some(p) => seq![SourceView { path: p, required: true }],
        None => seq![],
    };
    if no_config {
        named
    } else {
        let u = match user {
            Some(p) => seq![SourceView { path: p, required: false }],
            None => seq![],
        };
        let q = match project {
            Some(p) => seq![SourceView { path: p, required: false }],
            None => seq![],
        };
        u + q + named
    }
}

/// The configuration files to read, in order (see `config_sources_spec`).
pub fn config_sources(
    no_config: bool,
    user: Option<String>,
    project: Option<String>,
    explicit: Option<String>,
) -> (r: Vec<ConfigSource>)
    ensures
        source_views(r@) == config_sources_spec(
            no_config,
            opt_string(user),
            opt_string(project),
            opt_string(explicit),
        ),
{
    let mut r: Vec<ConfigSource> = Vec::new();
    if !no_config {
        if let Some(p) = user {
            r.push(ConfigSource { path: p, required: false });
        }
        if let Some(p) = project {
            r.push(ConfigSource { path: p, required: false });
        }
    }
    if let Some(p) = explicit {
        r.push(ConfigSource { path: p, required: true });
    }
    assert(source_views(r@) =~= config_sources_spec(
        no_config,
        opt_string(user),
        opt_string(project),
        opt_string(explicit),
    ));
    r
}

/// The directory a config file's relative image paths resolve against: the
/// file's parent, or `.` where it has none.
pub fn config_dir(path: &str) -> (r: String)
    ensures
        r@ == match parent_of(path@) {
            Some(p) => p,
            None => "."@,
        },
{
    match path_parent(path) {
        Some(p) => p,
        None => String::from_str("."),
    }
}

/// A value that is set and not empty.
pub open spec fn non_empty(v: Option<Seq<char>>) -> Option<Seq<char>> {
    match v {
        Some(s) => if s.len() > 0 {
            Some(s)
        } else {
            None
        },
        None => None,
    }
}

fn non_empty_str(v: Option<&str>) -> (r: Option<&str>)
    ensures
        match r {
            Some(s) => Some(s@),
            None => None,
        } == non_empty(
            match v {
                Some(s) => Some(s@),
                None => None,
            },
        ),
{
    match v {
        Some(s) => if s.unicode_len() > 0 {
            Some(s)
        } else {
            None
        },
        None => None,
    }
}

/// The user configuration file: `mdpdf/config.toml` under `%APPDATA%` on
/// Windows; elsewhere under `$XDG_CONFIG_HOME`, falling back to
/// `~/.config`. Empty variables count as unset.
pub open spec fn user_config_path_spec(
    windows: bool,
    appdata: Option<Seq<char>>,
    xdg_config_home: Option<Seq<char>>,
    home: Option<Seq<char>>,
) -> Option<Seq<char>> {
    let base = if windows {
        non_empty(appdata)
    } else {
        match non_empty(xdg_config_home) {
            Some(x) => Some(x),
            None => match non_empty(home) {
                Some(h) => Some(joined(h, ".config"@)),
                None => None,
            },
        }
    };
    match base {
        Some(b) => Some(joined(joined(b, "mdpdf"@), "config.toml"@)),
        None => None,
    }
}

/// The user configuration file for the given environment values (see
/// `user_config_path_spec`).
pub fn user_config_path(
    windows: bool,
    appdata: Option<&str>,
    xdg_config_home: Option<&str>,
    home: Option<&str>,
) -> (r: Option<String>)
    ensures
        opt_string(r) == user_config_path_spec(
            windows,
            match appdata {
                Some(s) => Some(s@),
                None => None,
            },
            match xdg_config_home {
                Some(s) => Some(s@),
                None => None,
            },
            match home {
                Some(s) => Some(s@),
                None => None,
            },
        ),
{
    let base: Option<String> = if windows {
        match non_empty_str(appdata) {
            Some(a) => Some(a.to_owned()),
            None => None,
        }
    } else {
        match non_empty_str(xdg_config_home) {
            Some(x) => Some(x.to_owned()),
            None => match non_empty_str(home) {
                Some(h) => Some(path_join(h, ".config")),
                None => None,
            },
        }
    };
    match base {
        Some(b) => {
            let d = path_join(b.as_str(), "mdpdf");
            Some(path_join(d.as_str(), "config.toml"))
        },
        None => None,
    }
}

/// The project configuration files to look for, nearest first: one in the
/// start directory and one in each of its ancestors.
pub open spec fn config_candidates_spec(dir: Seq<char>) -> Seq<Seq<char>>
    decreases dir.len(),
{
    let here = joined(dir, ".mdpdf.toml"@);
    match parent_of(dir) {
        Some(p) => if p.len() < dir.len() {
            seq![here] + config_candidates_spec(p)
        } else {
            seq![here]
        },
        None => seq![here],
    }
}

/// The nearest project configuration file among those that exist.
pub open spec fn find_config_spec(dir: Seq<char>, existing: Seq<Seq<char>>) -> Option<Seq<char>>
    decreases dir.len(),
{
    let here = joined(dir, ".mdpdf.toml"@);
    if existing.contains(here) {
        Some(here)
    } else {
        match parent_of(dir) {
            Some(p) => if p.len() < dir.len() {
                find_config_spec(p, existing)
            } else {
                None
            },
            None => None,
        }
    }
}

/// The project configuration files to check on disk, nearest first (see
/// `config_candidates_spec`).
pub fn project_config_candidates(start: &str) -> (r: Vec<String>)
    ensures
        string_views(r@) == config_candidates_spec(start@),
{
    let mut r: Vec<String> = Vec::new();
    let mut dir = start.to_owned();
    loop
        invariant
            string_views(r@) + config_candidates_spec(dir@) == config_candidates_spec(start@),
        decreases dir@.len(),
    {
        let here = path_join(dir.as_str(), PROJECT_CONFIG_NAME);
        let ghost before = r@;
        r.push(here);
        assert(string_views(r@) =~= string_views(before).push(here@));
        match path_parent(dir.as_str()) {
            Some(p) => {
                assert(string_views(r@) + config_candidates_spec(p@) =~= string_views(before) + (
                seq![here@] + config_candidates_spec(p@)));
                dir = p;
            },
            None => {
                assert(string_views(r@) =~= string_views(before) + seq![here@]);
                return r;
            },
        }
    }
}

/// Walks up from `start` to the nearest `.mdpdf.toml` among the files that
/// exist, so a config at a repo root applies to documents in its
/// subdirectories (see `find_config_spec`).
pub fn find_project_config(start: &str, existing_files: &Vec<String>) -> (r: Option<String>)
    ensures
        opt_string(r) == find_config_spec(start@, string_views(existing_files@)),
{
    let ghost ex = string_views(existing_files@);
    let mut dir = start.to_owned();
    loop
        invariant
            ex == string_views(existing_files@),
            find_config_spec(dir@, ex) == find_config_spec(start@, ex),
        decreases dir@.len(),
    {
        let here = path_join(dir.as_str(), PROJECT_CONFIG_NAME);
        if contains_string(existing_files, here.as_str()) {
            return Some(here);
        }
        match path_parent(dir.as_str()) {
            Some(p) => {
                dir = p;
            },
            None => {
                return None;
            },
        }
    }
}

} // verus!
