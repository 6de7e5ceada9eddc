use vstd::prelude::*;

verus! {

use crate::errors::{Error, ErrorV};
use crate::store::{spec_assoc, BytesStore, NameTable};
use vstd::slice::slice_to_vec;
use vstd::string::StrSliceExecFns;
use vstd::string::StringExecFns;

// ---------------------------------------------------------------------------
// Content digests.
// ---------------------------------------------------------------------------

/// The SHA-256 digest of a byte sequence.  Naming it claims exactly that the
/// digest is a function of the content alone, which is what makes the
/// fingerprinting content-addressed and reproducible.
pub uninterp spec fn spec_sha256(data: Seq<u8>) -> Seq<u8>;

/// Relies on `sha2::Sha256`: the digest depends on the input bytes alone and
/// is 32 bytes long.
#[verifier::external_body]
fn sha256_digest(data: &Vec<u8>) -> (r: Vec<u8>)
    ensures
        r@ == spec_sha256(data@),
        r@.len() == 32,
{
    <sha2::Sha256 as sha2::Digest>::digest(data).to_vec()
}

/// The lowercase hexadecimal digit for a value below 16.
pub open spec fn spec_hex_digit(n: u8) -> char {
    if n < 10 {
        ((n + 48) as u32) as char
    } else {
        ((n + 87) as u32) as char
    }
}

/// The lowercase hexadecimal rendering of a byte sequence, two digits per
/// byte, most significant digit first.
pub open spec fn spec_hex_lower(b: Seq<u8>) -> Seq<char>
    decreases b.len(),
{
    if b.len() == 0 {
        Seq::empty()
    } else {
        seq![spec_hex_digit(b[0] / 16), spec_hex_digit(b[0] % 16)] + spec_hex_lower(b.drop_first())
    }
}

/// Relies on `hex::encode`: lowercase hexadecimal, two digits per byte, most
/// significant digit first.
#[verifier::external_body]
fn hex_encode(data: &Vec<u8>) -> (r: String)
    ensures
        r@ == spec_hex_lower(data@),
{
    hex::encode(data)
}

/// The first `k` bytes of a digest.
pub open spec fn spec_digest_prefix(data: Seq<u8>, k: int) -> Seq<u8> {
    spec_sha256(data).take(k)
}

// ---------------------------------------------------------------------------
// Logical names: splitting at the first dot, and fingerprinting.
// ---------------------------------------------------------------------------

/// The first position at or after `i` holding `'.'`.
pub open spec fn spec_first_dot(s: Seq<char>, i: int) -> Option<int>
    decreases s.len() - i,
{
    if i < 0 || i >= s.len() {
        None
    } else if s[i] == '.' {
        Some(i)
    } else {
        spec_first_dot(s, i + 1)
    }
}

/// A logical name split at its first dot into base and extension; `None`
/// for a name with no dot at all.
pub open spec fn spec_split_name(name: Seq<char>) -> Option<(Seq<char>, Seq<char>)> {
    match spec_first_dot(name, 0) {
        None => None,
        Some(k) => Some((name.take(k), name.skip(k + 1))),
    }
}

/// Split a name at its first dot.
fn split_name(name: &str) -> (r: Option<(String, String)>)
    ensures
        match r {
            Some((base, ext)) => spec_split_name(name@) == Some((base@, ext@)),
            None => spec_split_name(name@) is None,
        },
{
    let v = crate::utils::str_chars(name);
    let n = v.len();
    let mut i: usize = 0;
    while i < n
        invariant
            0 <= i <= n,
            n == v@.len(),
            v@ == name@,
            spec_first_dot(name@, 0) == spec_first_dot(name@, i as int),
        decreases n - i,
    {
        if v[i] == '.' {
            let base = name.substring_char(0, i).to_owned();
            let ext = name.substring_char(i + 1, n).to_owned();
            proof {
                assert(name@.take(i as int) == name@.subrange(0, i as int));
                assert(name@.skip(i + 1) =~= name@.subrange(i + 1, n as int));
            }
            return Some((base, ext));
        }
        i = i + 1;
    }
    None
}

/// The fingerprinted form of a name: `<base>-<digest>.<extension>`, where
/// the digest is the first four bytes of the content's SHA-256 digest in
/// lowercase hexadecimal.
pub open spec fn spec_hashed_name(name: Seq<char>, data: Seq<u8>) -> Seq<char> {
    match spec_split_name(name) {
        None => name,
        Some(split) => split.0 + seq!['-'] + spec_hex_lower(spec_digest_prefix(data, 4)) + seq![
            '.',
        ] + split.1,
    }
}

/// Hashing is deterministic and content-addressed: any two assets with the
/// same byte content and the same logical name get the same fingerprinted
/// filename, whatever order or context they are hashed in.
pub proof fn lemma_hashing_deterministic(
    name1: Seq<char>,
    name2: Seq<char>,
    data1: Seq<u8>,
    data2: Seq<u8>,
)
    requires
        name1 == name2,
        data1 == data2,
    ensures
        spec_hashed_name(name1, data1) == spec_hashed_name(name2, data2),
{
}

/// The digest part of two fingerprinted names is the same whenever the byte
/// content is, even under different logical names.
pub proof fn lemma_digest_content_addressed(data1: Seq<u8>, data2: Seq<u8>)
    requires
        data1 == data2,
    ensures
        spec_hex_lower(spec_digest_prefix(data1, 4)) == spec_hex_lower(
            spec_digest_prefix(data2, 4),
        ),
{
}

/// Compute the fingerprinted form of a name from the content bytes.
fn hashed_name(name: &str, data: &Vec<u8>) -> (r: String)
    ensures
        r@ == spec_hashed_name(name@, data@),
{
    match split_name(name) {
        None => name.to_owned(),
        Some((base, ext)) => {
            let digest = sha256_digest(data);
            let prefix = subbytes(&digest, 0, 4);
            assert(prefix@ == spec_digest_prefix(data@, 4));
            let hexpart = hex_encode(&prefix);
            let mut s = base;
            s.append("-");
            s.append(hexpart.as_str());
            s.append(".");
            s.append(ext.as_str());
            proof {
                reveal_strlit("-");
                reveal_strlit(".");
                assert(s@ =~= spec_hashed_name(name@, data@));
            }
            s
        },
    }
}

/// Copy `v[from..to]` into a fresh byte vector.
fn subbytes(v: &Vec<u8>, from: usize, to: usize) -> (r: Vec<u8>)
    requires
        from <= to <= v@.len(),
    ensures
        r@ == v@.subrange(from as int, to as int),
{
    let mut out: Vec<u8> = Vec::new();
    let mut i: usize = from;
    while i < to
        invariant
            from <= i <= to <= v@.len(),
            out@ =~= v@.subrange(from as int, i as int),
        decreases to - i,
    {
        out.push(v[i]);
        i = i + 1;
    }
    assert(out@ =~= v@.subrange(from as int, to as int));
    out
}

// ---------------------------------------------------------------------------
// The catalog.
// ---------------------------------------------------------------------------

/// One static asset: either bytes bundled with the generator, or a
/// user-supplied file on disk, under the logical name it will be written
/// to.
pub enum StaticFile {
    Builtin { data: Vec<u8>, filename: String },
    Additional { input_location: String, filename: String },
}

/// The mathematical shape of one asset: its logical filename, and either
/// its bytes or its input location.
pub enum AssetV {
    Builtin(Seq<char>, Seq<u8>),
    Additional(Seq<char>, Seq<char>),
}

impl View for StaticFile {
    type V = AssetV;

    open spec fn view(&self) -> AssetV {
        match self {
            StaticFile::Builtin { data, filename } => AssetV::Builtin(filename@, data@),
            StaticFile::Additional { input_location, filename } => AssetV::Additional(
                filename@,
                input_location@,
            ),
        }
    }
}

/// The logical filename of an asset.
pub open spec fn asset_name(f: AssetV) -> Seq<char> {
    match f {
        AssetV::Builtin(name, _) => name,
        AssetV::Additional(name, _) => name,
    }
}

/// The views of a catalog's assets, in order.
pub open spec fn assets_view(files: Seq<StaticFile>) -> Seq<AssetV> {
    files.map_values(|f: StaticFile| f@)
}

/// The pairs a name table holds, as character sequences.
pub open spec fn table_view(t: NameTable) -> Seq<(Seq<char>, Seq<char>)> {
    t.entries@.map_values(|p: (String, String)| (p.0@, p.1@))
}

/// Map static files to their final names and contents.
///
/// It performs fingerprinting, if you call the `hash_files` method.
/// If hash-files is not called, then the files will not be renamed.
/// It also plans the files' final destinations, when `write_files` is
/// called, and interprets the `{{ resource }}` directives to allow assets
/// to name each other.
pub struct StaticFiles {
    pub static_files: Vec<StaticFile>,
    pub hash_map: NameTable,
}

// ---------------------------------------------------------------------------
// The hashing phase.
// ---------------------------------------------------------------------------

/// Whether a builtin asset's name gets a fingerprint: base and extension
/// both non-empty, not a plain-text license file, and not one of the
/// FontAwesome font files, which do their own cache busting.
pub open spec fn spec_hashable_builtin(name: Seq<char>) -> bool {
    match spec_split_name(name) {
        None => false,
        Some(split) => split.0.len() > 0 && split.1.len() > 0 && split.1 != "txt"@
            && !(split.0.len() >= "FontAwesome/fonts/"@.len() && split.0.take(
            "FontAwesome/fonts/"@.len() as int,
        ) == "FontAwesome/fonts/"@),
    }
}

/// Whether a user-supplied asset's name gets a fingerprint.
pub open spec fn spec_hashable_additional(name: Seq<char>) -> bool {
    match spec_split_name(name) {
        None => false,
        Some(split) => split.0.len() > 0 && split.1.len() > 0,
    }
}

/// The first user-supplied asset that must be read for hashing but is
/// missing from the caller's table, if any: hashing fails on it.
pub open spec fn spec_hash_missing(
    files: Seq<AssetV>,
    sources: Seq<(String, Vec<u8>)>,
) -> Option<Seq<char>>
    decreases files.len(),
{
    if files.len() == 0 {
        None
    } else {
        match files[0] {
            AssetV::Additional(name, loc) => {
                if spec_hashable_additional(name) && spec_assoc(sources, loc) is None {
                    Some(loc)
                } else {
                    spec_hash_missing(files.drop_first(), sources)
                }
            },
            AssetV::Builtin(_, _) => spec_hash_missing(files.drop_first(), sources),
        }
    }
}

/// What one asset looks like after hashing.
pub open spec fn spec_hash_one(f: AssetV, sources: Seq<(String, Vec<u8>)>) -> AssetV {
    match f {
        AssetV::Builtin(name, data) => if spec_hashable_builtin(name) {
            AssetV::Builtin(spec_hashed_name(name, data), data)
        } else {
            f
        },
        AssetV::Additional(name, loc) => if spec_hashable_additional(name) {
            match spec_assoc(sources, loc) {
                Some(bytes) => AssetV::Additional(spec_hashed_name(name, bytes@), loc),
                None => f,
            }
        } else {
            f
        },
    }
}

/// The whole catalog after hashing.
pub open spec fn spec_hashed_files(files: Seq<AssetV>, sources: Seq<(String, Vec<u8>)>) -> Seq<
    AssetV,
> {
    files.map_values(|f: AssetV| spec_hash_one(f, sources))
}

/// The renaming pair one asset contributes: one `(old name, new name)`
/// entry when it is fingerprinted, nothing otherwise.
pub open spec fn spec_pair_chunk(f: AssetV, sources: Seq<(String, Vec<u8>)>) -> Seq<
    (Seq<char>, Seq<char>),
> {
    match f {
        AssetV::Builtin(name, data) => if spec_hashable_builtin(name) {
            seq![(name, spec_hashed_name(name, data))]
        } else {
            Seq::empty()
        },
        AssetV::Additional(name, loc) => if spec_hashable_additional(name) {
            match spec_assoc(sources, loc) {
                Some(bytes) => seq![(name, spec_hashed_name(name, bytes@))],
                None => Seq::empty(),
            }
        } else {
            Seq::empty()
        },
    }
}

/// The renaming pairs the hashing phase records, in catalog order.
pub open spec fn spec_hash_pairs(files: Seq<AssetV>, sources: Seq<(String, Vec<u8>)>) -> Seq<
    (Seq<char>, Seq<char>),
>
    decreases files.len(),
{
    if files.len() == 0 {
        Seq::empty()
    } else {
        spec_pair_chunk(files[0], sources) + spec_hash_pairs(files.drop_first(), sources)
    }
}

impl StaticFiles {
    /// Record one more builtin asset under the given logical name.
    pub fn add_builtin(&mut self, filename: &str, data: &[u8])
        ensures
            final (self).static_files@.len() == old(self).static_files@.len() + 1,
            assets_view(final (self).static_files@) == assets_view(old(self).static_files@).push(
                AssetV::Builtin(filename@, data@),
            ),
            final (self).hash_map == old(self).hash_map,
    {
        let f = StaticFile::Builtin { filename: filename.to_owned(), data: slice_to_vec(data) };
        self.static_files.push(f);
        proof {
            assert(assets_view(self.static_files@) =~= assets_view(old(self).static_files@).push(
                AssetV::Builtin(filename@, data@),
            ));
        }
    }

    /// Fingerprint every hashable asset's name with its content digest and
    /// record the renames.  The bytes of user-supplied assets are taken
    /// from `sources`; if one that must be hashed is missing there, the
    /// phase fails with `IoFailure` on the first such location and changes
    /// nothing.
    pub fn hash_files(&mut self, sources: &BytesStore) -> (r: Result<(), Error>)
        ensures
            match r {
                Ok(()) => {
                    &&& spec_hash_missing(assets_view(old(self).static_files@), sources.entries@)
                        is None
                    &&& assets_view(final (self).static_files@) == spec_hashed_files(
                        assets_view(old(self).static_files@),
                        sources.entries@,
                    )
                    &&& table_view(final (self).hash_map) == table_view(old(self).hash_map)
                        + spec_hash_pairs(
                        assets_view(old(self).static_files@),
                        sources.entries@,
                    )
                },
                Err(e) => match e@ {
                    ErrorV::IoFailure(loc) => {
                        &&& spec_hash_missing(
                            assets_view(old(self).static_files@),
                            sources.entries@,
                        ) == Some(loc)
                        &&& *final (self) == *old(self)
                    },
                    _ => false,
                },
            },
    {
        let n = self.static_files.len();
        let ghost files0 = assets_view(self.static_files@);
        // First make sure every needed source is there, so that a failure
        // changes nothing.
        let mut i: usize = 0;
        assert(files0.skip(0) =~= files0);
        while i < n
            invariant
                0 <= i <= n,
                n == self.static_files@.len(),
                files0 == assets_view(self.static_files@),
                spec_hash_missing(files0, sources.entries@) == spec_hash_missing(
                    files0.skip(i as int),
                    sources.entries@,
                ),
                forall|j: int|
                    0 <= j < i ==> !hash_source_missing(#[trigger] files0[j], sources.entries@),
            decreases n - i,
        {
            proof {
                assert(files0.skip(i as int)[0] == files0[i as int]);
                assert(files0.skip(i as int).drop_first() =~= files0.skip(i + 1));
            }
            match &self.static_files[i] {
                StaticFile::Additional { input_location, filename } => {
                    if split_is_hashable(filename.as_str()) {
                        match sources.get(input_location) {
                            Some(_) => {},
                            None => {
                                return Err(Error::IoFailure(input_location.clone()));
                            },
                        }
                    }
                },
                StaticFile::Builtin { .. } => {},
            }
            i = i + 1;
        }
        assert(files0.skip(n as int) =~= Seq::<AssetV>::empty());
        // Now hash in place.
        let mut i: usize = 0;
        let ghost map0 = table_view(self.hash_map);
        assert(table_view(self.hash_map) =~= map0 + spec_hash_pairs(
            files0.take(0),
            sources.entries@,
        ));
        assert(assets_view(self.static_files@) =~= spec_hashed_files(
            files0.take(0),
            sources.entries@,
        ) + files0.skip(0));
        while i < n
            invariant
                0 <= i <= n,
                n == self.static_files@.len(),
                files0.len() == n,
                map0 == table_view(old(self).hash_map),
                forall|j: int|
                    0 <= j < n ==> !hash_source_missing(#[trigger] files0[j], sources.entries@),
                assets_view(self.static_files@) =~= spec_hashed_files(
                    files0.take(i as int),
                    sources.entries@,
                ) + files0.skip(i as int),
                table_view(self.hash_map) =~= map0 + spec_hash_pairs(
                    files0.take(i as int),
                    sources.entries@,
                ),
            decreases n - i,
        {
            proof {
                assert(files0.skip(i as int)[0] == files0[i as int]);
                assert(spec_hashed_files(files0.take(i as int), sources.entries@).len() == i);
                assert(assets_view(self.static_files@)[i as int]
                    == self.static_files@[i as int]@);
                assert(self.static_files@[i as int]@ == files0[i as int]);
            }
            let new_name: Option<(String, String)>;
            match &self.static_files[i] {
                StaticFile::Builtin { data, filename } => {
                    if split_is_hashable_builtin(filename.as_str()) {
                        let hn = hashed_name(filename.as_str(), data);
                        new_name = Some((filename.clone(), hn));
                    } else {
                        new_name = None;
                    }
                },
                StaticFile::Additional { input_location, filename } => {
                    if split_is_hashable(filename.as_str()) {
                        let bytes = match sources.get(input_location) {
                            Some(b) => b,
                            None => {
                                proof {
                                    assert(files0[i as int] == self.static_files@[i as int]@);
                                    assert(hash_source_missing(files0[i as int], sources.entries@));
                                    assert(false);
                                }
                                return Err(Error::IoFailure(input_location.clone()));
                            },
                        };
                        let hn = hashed_name(filename.as_str(), bytes);
                        new_name = Some((filename.clone(), hn));
                    } else {
                        new_name = None;
                    }
                },
            }
            proof {
                match &new_name {
                    Some(p) => {
                        assert(rename_asset(files0[i as int], p.1@) == spec_hash_one(
                            files0[i as int],
                            sources.entries@,
                        ));
                        assert(spec_pair_chunk(files0[i as int], sources.entries@) =~= seq![
                            (p.0@, p.1@),
                        ]);
                    },
                    None => {
                        assert(spec_hash_one(files0[i as int], sources.entries@)
                            == files0[i as int]);
                        assert(spec_pair_chunk(files0[i as int], sources.entries@) =~= Seq::<
                            (Seq<char>, Seq<char>),
                        >::empty());
                    },
                }
                lemma_hash_pairs_snoc(files0, i as int, sources.entries@);
                assert(files0.take(i + 1) =~= files0.take(i as int).push(files0[i as int]));
                assert(spec_hashed_files(files0.take(i + 1), sources.entries@)
                    =~= spec_hashed_files(files0.take(i as int), sources.entries@).push(
                    spec_hash_one(files0[i as int], sources.entries@),
                ));
                assert(files0.skip(i as int).drop_first() =~= files0.skip(i + 1));
            }
            let ghost prev_view = assets_view(self.static_files@);
            let ghost prev_table = table_view(self.hash_map);
            match new_name {
                Some((old_name, hn)) => {
                    let ghost oldnv = old_name@;
                    let ghost hnv = hn@;
                    set_filename(&mut self.static_files, i, hn.clone());
                    self.hash_map.insert(old_name, hn);
                    proof {
                        assert(table_view(self.hash_map) =~= prev_table.push((oldnv, hnv)));
                        assert(assets_view(self.static_files@) =~= spec_hashed_files(
                            files0.take(i + 1),
                            sources.entries@,
                        ) + files0.skip(i + 1));
                        assert(table_view(self.hash_map) =~= map0 + spec_hash_pairs(
                            files0.take(i + 1),
                            sources.entries@,
                        ));
                    }
                },
                None => {
                    proof {
                        assert(assets_view(self.static_files@) =~= spec_hashed_files(
                            files0.take(i + 1),
                            sources.entries@,
                        ) + files0.skip(i + 1));
                        assert(table_view(self.hash_map) =~= map0 + spec_hash_pairs(
                            files0.take(i + 1),
                            sources.entries@,
                        ));
                    }
                },
            }
            i = i + 1;
        }
        proof {
            assert(files0.take(n as int) =~= files0);
            assert(files0.skip(n as int) =~= Seq::<AssetV>::empty());
            assert(assets_view(self.static_files@) =~= spec_hashed_files(
                files0,
                sources.entries@,
            ));
        }
        Ok(())
    }
}

// ---------------------------------------------------------------------------
// The theme's data and the options that choose what goes in the catalog.
// ---------------------------------------------------------------------------

/// The bytes of the built-in theme, handed in by the caller as a read-only
/// data table so that the pipeline is a pure function of its inputs.
pub struct Theme {
    pub index: Vec<u8>,
    pub head: Vec<u8>,
    pub redirect: Vec<u8>,
    pub header: Vec<u8>,
    pub chrome_css: Vec<u8>,
    pub general_css: Vec<u8>,
    pub print_css: Vec<u8>,
    pub variables_css: Vec<u8>,
    pub favicon_png: Option<Vec<u8>>,
    pub favicon_svg: Option<Vec<u8>>,
    pub js: Vec<u8>,
    pub highlight_css: Vec<u8>,
    pub tomorrow_night_css: Vec<u8>,
    pub ayu_highlight_css: Vec<u8>,
    pub highlight_js: Vec<u8>,
    pub clipboard_js: Vec<u8>,
}

/// The bundled FontAwesome files.
pub struct FontAwesomeData {
    pub css: Vec<u8>,
    pub eot: Vec<u8>,
    pub svg: Vec<u8>,
    pub ttf: Vec<u8>,
    pub woff: Vec<u8>,
    pub woff2: Vec<u8>,
}

/// The bundled font files: the font stylesheet, the license texts, the
/// Open Sans faces and the Source Code Pro face, each under its logical
/// name.
pub struct FontsData {
    pub css: Vec<u8>,
    pub licenses: Vec<(String, Vec<u8>)>,
    pub open_sans: Vec<(String, Vec<u8>)>,
    pub source_code_pro: (String, Vec<u8>),
}

/// The bundled playground editor files.
pub struct PlaygroundEditorData {
    pub js: Vec<u8>,
    pub ace_js: Vec<u8>,
    pub mode_rust_js: Vec<u8>,
    pub theme_dawn_js: Vec<u8>,
    pub theme_tomorrow_night_js: Vec<u8>,
}

/// All the bundled bytes beyond the theme itself.
pub struct ThemeExtras {
    pub font_awesome: FontAwesomeData,
    pub fonts: FontsData,
    pub playground_editor: PlaygroundEditorData,
}

/// The print page option.
pub struct PrintConfig {
    pub enable: bool,
}

/// The playground options.
pub struct PlaygroundConfig {
    pub editable: bool,
    pub copy_js: bool,
}

/// The options of the HTML output that decide which assets are collected.
pub struct HtmlConfig {
    pub print: PrintConfig,
    pub copy_fonts: bool,
    pub playground: PlaygroundConfig,
    pub additional_css: Vec<String>,
    pub additional_js: Vec<String>,
}

impl Default for HtmlConfig {
    /// Print page on, fonts copied, playground not editable, no
    /// user-supplied assets.
    fn default() -> (r: HtmlConfig)
        ensures
            r.print.enable,
            r.copy_fonts,
            !r.playground.editable,
            r.playground.copy_js,
            r.additional_css@.len() == 0,
            r.additional_js@.len() == 0,
    {
        HtmlConfig {
            print: PrintConfig { enable: true },
            copy_fonts: true,
            playground: PlaygroundConfig { editable: false, copy_js: true },
            additional_css: Vec::new(),
            additional_js: Vec::new(),
        }
    }
}

/// A named byte table as catalog entries.
pub open spec fn spec_named_builtins(entries: Seq<(String, Vec<u8>)>) -> Seq<AssetV> {
    entries.map_values(|p: (String, Vec<u8>)| AssetV::Builtin(p.0@, p.1@))
}

/// A list of user-supplied files as catalog entries: each is written under
/// its own relative name and read from that name resolved against the book
/// root.
pub open spec fn spec_additional_assets(files: Seq<String>, root: Seq<char>) -> Seq<AssetV> {
    files.map_values(
        |f: String| AssetV::Additional(f@, crate::paths::spec_resolve(root, f@)),
    )
}

/// The theme's own files, under their fixed logical names: the print
/// stylesheet only when the print page is on, the favicons only when
/// present.
pub open spec fn spec_core_assets(theme: Theme, cfg: HtmlConfig) -> Seq<AssetV> {
    let s = seq![
        AssetV::Builtin("book.js"@, theme.js@),
        AssetV::Builtin("css/general.css"@, theme.general_css@),
        AssetV::Builtin("css/chrome.css"@, theme.chrome_css@),
    ];
    let s = if cfg.print.enable {
        s.push(AssetV::Builtin("css/print.css"@, theme.print_css@))
    } else {
        s
    };
    let s = s.push(AssetV::Builtin("css/variables.css"@, theme.variables_css@));
    let s = match theme.favicon_png {
        Some(c) => s.push(AssetV::Builtin("favicon.png"@, c@)),
        None => s,
    };
    let s = match theme.favicon_svg {
        Some(c) => s.push(AssetV::Builtin("favicon.svg"@, c@)),
        None => s,
    };
    let s = s.push(AssetV::Builtin("highlight.css"@, theme.highlight_css@));
    let s = s.push(AssetV::Builtin("tomorrow-night.css"@, theme.tomorrow_night_css@));
    let s = s.push(AssetV::Builtin("ayu-highlight.css"@, theme.ayu_highlight_css@));
    let s = s.push(AssetV::Builtin("highlight.js"@, theme.highlight_js@));
    let s = s.push(AssetV::Builtin("clipboard.min.js"@, theme.clipboard_js@));
    s
}

/// The bundled FontAwesome files.
pub open spec fn spec_fa_assets(extras: ThemeExtras) -> Seq<AssetV> {
    seq![
        AssetV::Builtin("FontAwesome/css/font-awesome.css"@, extras.font_awesome.css@),
        AssetV::Builtin(
            "FontAwesome/fonts/fontawesome-webfont.eot"@,
            extras.font_awesome.eot@,
        ),
        AssetV::Builtin(
            "FontAwesome/fonts/fontawesome-webfont.svg"@,
            extras.font_awesome.svg@,
        ),
        AssetV::Builtin(
            "FontAwesome/fonts/fontawesome-webfont.ttf"@,
            extras.font_awesome.ttf@,
        ),
        AssetV::Builtin(
            "FontAwesome/fonts/fontawesome-webfont.woff"@,
            extras.font_awesome.woff@,
        ),
        AssetV::Builtin(
            "FontAwesome/fonts/fontawesome-webfont.woff2"@,
            extras.font_awesome.woff2@,
        ),
        AssetV::Builtin("FontAwesome/fonts/FontAwesome.ttf"@, extras.font_awesome.ttf@),
    ]
}

/// The bundled fonts, when fonts are copied.
pub open spec fn spec_fonts_chunk(cfg: HtmlConfig, extras: ThemeExtras) -> Seq<AssetV> {
    if cfg.copy_fonts {
        seq![AssetV::Builtin("fonts/fonts.css"@, extras.fonts.css@)] + spec_named_builtins(
            extras.fonts.licenses@,
        ) + spec_named_builtins(extras.fonts.open_sans@) + seq![
            AssetV::Builtin(extras.fonts.source_code_pro.0@, extras.fonts.source_code_pro.1@),
        ]
    } else {
        Seq::empty()
    }
}

/// The playground editor, when it is editable and its scripts are copied.
pub open spec fn spec_editor_chunk(cfg: HtmlConfig, extras: ThemeExtras) -> Seq<AssetV> {
    if cfg.playground.editable && cfg.playground.copy_js {
        seq![
            AssetV::Builtin("editor.js"@, extras.playground_editor.js@),
            AssetV::Builtin("ace.js"@, extras.playground_editor.ace_js@),
            AssetV::Builtin("mode-rust.js"@, extras.playground_editor.mode_rust_js@),
            AssetV::Builtin("theme-dawn.js"@, extras.playground_editor.theme_dawn_js@),
            AssetV::Builtin(
                "theme-tomorrow_night.js"@,
                extras.playground_editor.theme_tomorrow_night_js@,
            ),
        ]
    } else {
        Seq::empty()
    }
}

/// Everything `new` collects, in order: the theme files, the FontAwesome
/// files, the bundled fonts when fonts are copied, the playground editor
/// when asked for, and finally the user-supplied stylesheets and scripts.
pub open spec fn spec_initial_assets(
    theme: Theme,
    cfg: HtmlConfig,
    root: Seq<char>,
    extras: ThemeExtras,
) -> Seq<AssetV> {
    spec_core_assets(theme, cfg) + spec_fa_assets(extras) + spec_fonts_chunk(cfg, extras)
        + spec_editor_chunk(cfg, extras) + spec_additional_assets(cfg.additional_css@, root)
        + spec_additional_assets(cfg.additional_js@, root)
}

/// The logical names of a catalog.
pub open spec fn names_of(files: Seq<AssetV>) -> Seq<Seq<char>> {
    files.map_values(|f: AssetV| asset_name(f))
}

/// Whether the name at `i` already occurred earlier.
pub open spec fn dup_at(names: Seq<Seq<char>>, i: int) -> bool {
    exists|j: int| 0 <= j < i && names[j] == names[i]
}

/// The first position whose name already occurred, if any.
pub open spec fn spec_first_dup_from(names: Seq<Seq<char>>, i: int) -> Option<int>
    decreases names.len() - i,
{
    if i < 0 || i >= names.len() {
        None
    } else if dup_at(names, i) {
        Some(i)
    } else {
        spec_first_dup_from(names, i + 1)
    }
}

/// The first duplicated logical name in a catalog, if any.
pub open spec fn spec_first_dup(names: Seq<Seq<char>>) -> Option<int> {
    spec_first_dup_from(names, 0)
}

/// The logical name of entry `i`.
fn name_at<'a>(files: &'a Vec<StaticFile>, i: usize) -> (r: &'a String)
    requires
        i < files@.len(),
    ensures
        r@ == asset_name(files@[i as int]@),
{
    match &files[i] {
        StaticFile::Builtin { filename, .. } => filename,
        StaticFile::Additional { filename, .. } => filename,
    }
}

impl StaticFiles {
    /// Build the asset catalog: the theme's built-in files plus the
    /// user-declared additional stylesheets and scripts.  No two assets may
    /// share a logical name; a collision is a configuration error reported
    /// as `AssetNameCollision` on the first offending name, not silently
    /// resolved.
    #[verifier::rlimit(100)]
    pub fn new(theme: &Theme, html_config: &HtmlConfig, root: &str, extras: &ThemeExtras) -> (r:
        Result<StaticFiles, Error>)
        ensures
            ({
                let cat = spec_initial_assets(*theme, *html_config, root@, *extras);
                match r {
                    Ok(sf) => {
                        &&& spec_first_dup(names_of(cat)) is None
                        &&& assets_view(sf.static_files@) == cat
                        &&& sf.hash_map.entries@.len() == 0
                    },
                    Err(e) => match e@ {
                        ErrorV::AssetNameCollision(name) => match spec_first_dup(names_of(cat)) {
                            Some(k) => name == names_of(cat)[k],
                            None => false,
                        },
                        _ => false,
                    },
                }
            }),
    {
        let mut this = StaticFiles { static_files: Vec::new(), hash_map: NameTable::new() };
        add_core_assets(&mut this, theme, html_config);
        add_font_awesome_assets(&mut this, extras);
        add_fonts_assets(&mut this, html_config, extras);
        add_editor_assets(&mut this, html_config, extras);
        push_additional(&mut this, &html_config.additional_css, root);
        push_additional(&mut this, &html_config.additional_js, root);
        proof {
            assert(assets_view(this.static_files@) =~= spec_initial_assets(
                *theme,
                *html_config,
                root@,
                *extras,
            ));
        }
        // No two assets may share a final logical name.
        let total = this.static_files.len();
        let ghost cat = assets_view(this.static_files@);
        let mut i: usize = 0;
        while i < total
            invariant
                0 <= i <= total,
                total == this.static_files@.len(),
                cat == assets_view(this.static_files@),
                cat == spec_initial_assets(*theme, *html_config, root@, *extras),
                this.hash_map.entries@.len() == 0,
                spec_first_dup(names_of(cat)) == spec_first_dup_from(names_of(cat), i as int),
                forall|j: int| 0 <= j < i ==> !dup_at(names_of(cat), j),
            decreases total - i,
        {
            let mut j: usize = 0;
            while j < i
                invariant
                    0 <= j <= i < total,
                    total == this.static_files@.len(),
                    cat == assets_view(this.static_files@),
                    cat == spec_initial_assets(*theme, *html_config, root@, *extras),
                    spec_first_dup(names_of(cat)) == spec_first_dup_from(names_of(cat), i as int),
                    forall|l: int|
                        0 <= l < j ==> names_of(cat)[l] != names_of(cat)[i as int],
                decreases i - j,
            {
                proof {
                    assert(cat[j as int] == this.static_files@[j as int]@);
                    assert(cat[i as int] == this.static_files@[i as int]@);
                    assert(names_of(cat)[j as int] == asset_name(cat[j as int]));
                    assert(names_of(cat)[i as int] == asset_name(cat[i as int]));
                }
                if str_eq_lit(name_at(&this.static_files, j).as_str(), name_at(
                    &this.static_files,
                    i,
                ).as_str()) {
                    proof {
                        assert(cat[j as int] == this.static_files@[j as int]@);
                        assert(cat[i as int] == this.static_files@[i as int]@);
                        assert(names_of(cat)[j as int] == asset_name(cat[j as int]));
                        assert(names_of(cat)[i as int] == asset_name(cat[i as int]));
                        assert(names_of(cat)[j as int] == names_of(cat)[i as int]);
                        assert(dup_at(names_of(cat), i as int));
                        assert(spec_first_dup_from(names_of(cat), i as int) == Some(i as int));
                        assert(spec_first_dup(names_of(cat)) == Some(i as int));
                        assert(cat == spec_initial_assets(*theme, *html_config, root@, *extras));
                    }
                    let name = name_at(&this.static_files, i).clone();
                    proof {
                        assert(name@ == names_of(cat)[i as int]);
                    }
                    return Err(Error::AssetNameCollision(name));
                }
                j = j + 1;
            }
            proof {
                assert(!dup_at(names_of(cat), i as int));
            }
            i = i + 1;
        }
        proof {
            assert(spec_first_dup_from(names_of(cat), total as int) is None);
        }
        Ok(this)
    }
}

/// Record the theme's own files.
fn add_core_assets(this: &mut StaticFiles, theme: &Theme, cfg: &HtmlConfig)
    ensures
        assets_view(final (this).static_files@) == assets_view(old(this).static_files@)
            + spec_core_assets(*theme, *cfg),
        final (this).hash_map == old(this).hash_map,
{
    let ghost base = assets_view(this.static_files@);
    this.add_builtin("book.js", theme.js.as_slice());
    this.add_builtin("css/general.css", theme.general_css.as_slice());
    this.add_builtin("css/chrome.css", theme.chrome_css.as_slice());
    if cfg.print.enable {
        this.add_builtin("css/print.css", theme.print_css.as_slice());
    }
    this.add_builtin("css/variables.css", theme.variables_css.as_slice());
    match &theme.favicon_png {
        Some(contents) => {
            this.add_builtin("favicon.png", contents.as_slice());
        },
        None => {},
    }
    match &theme.favicon_svg {
        Some(contents) => {
            this.add_builtin("favicon.svg", contents.as_slice());
        },
        None => {},
    }
    this.add_builtin("highlight.css", theme.highlight_css.as_slice());
    this.add_builtin("tomorrow-night.css", theme.tomorrow_night_css.as_slice());
    this.add_builtin("ayu-highlight.css", theme.ayu_highlight_css.as_slice());
    this.add_builtin("highlight.js", theme.highlight_js.as_slice());
    this.add_builtin("clipboard.min.js", theme.clipboard_js.as_slice());
    proof {
        assert(assets_view(this.static_files@) =~= base + spec_core_assets(*theme, *cfg));
    }
}

/// Record the FontAwesome files.
fn add_font_awesome_assets(this: &mut StaticFiles, extras: &ThemeExtras)
    ensures
        assets_view(final (this).static_files@) == assets_view(old(this).static_files@)
            + spec_fa_assets(*extras),
        final (this).hash_map == old(this).hash_map,
{
    let ghost base = assets_view(this.static_files@);
    this.add_builtin("FontAwesome/css/font-awesome.css", extras.font_awesome.css.as_slice());
    this.add_builtin(
        "FontAwesome/fonts/fontawesome-webfont.eot",
        extras.font_awesome.eot.as_slice(),
    );
    this.add_builtin(
        "FontAwesome/fonts/fontawesome-webfont.svg",
        extras.font_awesome.svg.as_slice(),
    );
    this.add_builtin(
        "FontAwesome/fonts/fontawesome-webfont.ttf",
        extras.font_awesome.ttf.as_slice(),
    );
    this.add_builtin(
        "FontAwesome/fonts/fontawesome-webfont.woff",
        extras.font_awesome.woff.as_slice(),
    );
    this.add_builtin(
        "FontAwesome/fonts/fontawesome-webfont.woff2",
        extras.font_awesome.woff2.as_slice(),
    );
    this.add_builtin("FontAwesome/fonts/FontAwesome.ttf", extras.font_awesome.ttf.as_slice());
    proof {
        assert(assets_view(this.static_files@) =~= base + spec_fa_assets(*extras));
    }
}

/// Record the bundled fonts, when fonts are copied.
fn add_fonts_assets(this: &mut StaticFiles, cfg: &HtmlConfig, extras: &ThemeExtras)
    ensures
        assets_view(final (this).static_files@) == assets_view(old(this).static_files@)
            + spec_fonts_chunk(*cfg, *extras),
        final (this).hash_map == old(this).hash_map,
{
    let ghost base = assets_view(this.static_files@);
    if !cfg.copy_fonts {
        proof {
            assert(assets_view(this.static_files@) =~= base + spec_fonts_chunk(*cfg, *extras));
        }
        return;
    }
    this.add_builtin("fonts/fonts.css", extras.fonts.css.as_slice());
    let ghost mid = assets_view(this.static_files@);
    let m = extras.fonts.licenses.len();
    let mut k: usize = 0;
    while k < m
        invariant
            0 <= k <= m,
            m == extras.fonts.licenses@.len(),
            this.hash_map == old(this).hash_map,
            assets_view(this.static_files@) =~= mid + spec_named_builtins(
                extras.fonts.licenses@.take(k as int),
            ),
        decreases m - k,
    {
        this.add_builtin(
            extras.fonts.licenses[k].0.as_str(),
            extras.fonts.licenses[k].1.as_slice(),
        );
        proof {
            assert(extras.fonts.licenses@.take(k + 1) =~= extras.fonts.licenses@.take(
                k as int,
            ).push(extras.fonts.licenses@[k as int]));
            assert(spec_named_builtins(extras.fonts.licenses@.take(k + 1)) =~= spec_named_builtins(
                extras.fonts.licenses@.take(k as int),
            ).push(
                AssetV::Builtin(
                    extras.fonts.licenses@[k as int].0@,
                    extras.fonts.licenses@[k as int].1@,
                ),
            ));
        }
        k = k + 1;
    }
    proof {
        assert(extras.fonts.licenses@.take(m as int) =~= extras.fonts.licenses@);
    }
    let ghost mid2 = assets_view(this.static_files@);
    let m2 = extras.fonts.open_sans.len();
    let mut k2: usize = 0;
    while k2 < m2
        invariant
            0 <= k2 <= m2,
            m2 == extras.fonts.open_sans@.len(),
            this.hash_map == old(this).hash_map,
            assets_view(this.static_files@) =~= mid2 + spec_named_builtins(
                extras.fonts.open_sans@.take(k2 as int),
            ),
        decreases m2 - k2,
    {
        this.add_builtin(
            extras.fonts.open_sans[k2].0.as_str(),
            extras.fonts.open_sans[k2].1.as_slice(),
        );
        proof {
            assert(extras.fonts.open_sans@.take(k2 + 1) =~= extras.fonts.open_sans@.take(
                k2 as int,
            ).push(extras.fonts.open_sans@[k2 as int]));
            assert(spec_named_builtins(extras.fonts.open_sans@.take(k2 + 1))
                =~= spec_named_builtins(extras.fonts.open_sans@.take(k2 as int)).push(
                AssetV::Builtin(
                    extras.fonts.open_sans@[k2 as int].0@,
                    extras.fonts.open_sans@[k2 as int].1@,
                ),
            ));
        }
        k2 = k2 + 1;
    }
    proof {
        assert(extras.fonts.open_sans@.take(m2 as int) =~= extras.fonts.open_sans@);
    }
    this.add_builtin(
        extras.fonts.source_code_pro.0.as_str(),
        extras.fonts.source_code_pro.1.as_slice(),
    );
    proof {
        assert(assets_view(this.static_files@) =~= base + spec_fonts_chunk(*cfg, *extras));
    }
}

/// Record the playground editor files, when asked for.
fn add_editor_assets(this: &mut StaticFiles, cfg: &HtmlConfig, extras: &ThemeExtras)
    ensures
        assets_view(final (this).static_files@) == assets_view(old(this).static_files@)
            + spec_editor_chunk(*cfg, *extras),
        final (this).hash_map == old(this).hash_map,
{
    let ghost base = assets_view(this.static_files@);
    if cfg.playground.editable && cfg.playground.copy_js {
        this.add_builtin("editor.js", extras.playground_editor.js.as_slice());
        this.add_builtin("ace.js", extras.playground_editor.ace_js.as_slice());
        this.add_builtin("mode-rust.js", extras.playground_editor.mode_rust_js.as_slice());
        this.add_builtin("theme-dawn.js", extras.playground_editor.theme_dawn_js.as_slice());
        this.add_builtin(
            "theme-tomorrow_night.js",
            extras.playground_editor.theme_tomorrow_night_js.as_slice(),
        );
    }
    proof {
        assert(assets_view(this.static_files@) =~= base + spec_editor_chunk(*cfg, *extras));
    }
}

/// Append one user-supplied asset per declared file.
fn push_additional(this: &mut StaticFiles, files: &Vec<String>, root: &str)
    ensures
        assets_view(final (this).static_files@) == assets_view(old(this).static_files@)
            + spec_additional_assets(files@, root@),
        final (this).hash_map == old(this).hash_map,
{
    let ghost base = assets_view(this.static_files@);
    let m = files.len();
    let mut k: usize = 0;
    while k < m
        invariant
            0 <= k <= m,
            m == files@.len(),
            this.hash_map == old(this).hash_map,
            assets_view(this.static_files@) =~= base + spec_additional_assets(
                files@.take(k as int),
                root@,
            ),
        decreases m - k,
    {
        let input_location = crate::paths::resolve_location(root, files[k].as_str());
        let filename = files[k].clone();
        let ghost prev = assets_view(this.static_files@);
        this.static_files.push(StaticFile::Additional { input_location, filename });
        proof {
            assert(assets_view(this.static_files@) =~= prev.push(
                AssetV::Additional(
                    files@[k as int]@,
                    crate::paths::spec_resolve(root@, files@[k as int]@),
                ),
            ));
            assert(files@.take(k + 1) =~= files@.take(k as int).push(files@[k as int]));
            assert(spec_additional_assets(files@.take(k + 1), root@) =~= spec_additional_assets(
                files@.take(k as int),
                root@,
            ).push(
                AssetV::Additional(
                    files@[k as int]@,
                    crate::paths::spec_resolve(root@, files@[k as int]@),
                ),
            ));
            assert(assets_view(this.static_files@) =~= base + spec_additional_assets(
                files@.take(k + 1),
                root@,
            ));
        }
        k = k + 1;
    }
    proof {
        assert(files@.take(m as int) =~= files@);
    }
}

/// Whether an asset's source must be read for hashing but is missing.
pub open spec fn hash_source_missing(f: AssetV, sources: Seq<(String, Vec<u8>)>) -> bool {
    match f {
        AssetV::Additional(name, loc) => spec_hashable_additional(name) && spec_assoc(
            sources,
            loc,
        ) is None,
        AssetV::Builtin(_, _) => false,
    }
}

/// Replace the logical filename of entry `i`, keeping everything else.
fn set_filename(files: &mut Vec<StaticFile>, i: usize, new_name: String)
    requires
        i < old(files)@.len(),
    ensures
        final (files)@.len() == old(files)@.len(),
        assets_view(final (files)@) == assets_view(old(files)@).update(
            i as int,
            rename_asset(old(files)@[i as int]@, new_name@),
        ),
{
    let old_file = files.remove(i);
    let new_file = match old_file {
        StaticFile::Builtin { data, filename: _ } => StaticFile::Builtin { data, filename: new_name },
        StaticFile::Additional { input_location, filename: _ } => StaticFile::Additional {
            input_location,
            filename: new_name,
        },
    };
    files.insert(i, new_file);
    proof {
        assert(assets_view(files@) =~= assets_view(old(files)@).update(
            i as int,
            rename_asset(old(files)@[i as int]@, new_name@),
        ));
    }
}

/// An asset under a new logical name.
pub open spec fn rename_asset(f: AssetV, new_name: Seq<char>) -> AssetV {
    match f {
        AssetV::Builtin(_, data) => AssetV::Builtin(new_name, data),
        AssetV::Additional(_, loc) => AssetV::Additional(new_name, loc),
    }
}

/// The renaming pairs of a catalog prefix grow at the back.
proof fn lemma_hash_pairs_snoc(files: Seq<AssetV>, i: int, sources: Seq<(String, Vec<u8>)>)
    requires
        0 <= i < files.len(),
    ensures
        spec_hash_pairs(files.take(i + 1), sources) == spec_hash_pairs(files.take(i), sources)
            + spec_pair_chunk(files[i], sources),
    decreases i,
{
    if i == 0 {
        assert(files.take(1).drop_first() =~= Seq::<AssetV>::empty());
        assert(files.take(1)[0] == files[0]);
        assert(files.take(0) =~= Seq::<AssetV>::empty());
        assert(spec_hash_pairs(Seq::<AssetV>::empty(), sources) == Seq::<(
            Seq<char>,
            Seq<char>,
        )>::empty());
        assert(spec_hash_pairs(files.take(1), sources) == spec_pair_chunk(files[0], sources)
            + spec_hash_pairs(Seq::<AssetV>::empty(), sources));
        assert(spec_hash_pairs(files.take(1), sources) =~= spec_hash_pairs(files.take(0), sources)
            + spec_pair_chunk(files[0], sources));
    } else {
        lemma_hash_pairs_snoc(files.drop_first(), i - 1, sources);
        assert(files.take(i + 1).drop_first() =~= files.drop_first().take(i));
        assert(files.take(i).drop_first() =~= files.drop_first().take(i - 1));
        assert(files.take(i + 1)[0] == files[0]);
        assert(files.take(i)[0] == files[0]);
        assert(files.drop_first()[i - 1] == files[i]);
        assert(spec_hash_pairs(files.take(i + 1), sources) =~= spec_hash_pairs(
            files.take(i),
            sources,
        ) + spec_pair_chunk(files[i], sources));
    }
}

// ---------------------------------------------------------------------------
// The write phase: resolving `{{ resource "<name>" }}` directives and
// planning one output per asset.
// ---------------------------------------------------------------------------

/// One planned output: the bytes to write under a path, or a byte-for-byte
/// copy from an input location.
pub enum OutputContent {
    Bytes(Vec<u8>),
    CopyFrom(String),
}

/// One file of the output tree, relative to the destination root.
pub struct OutputFile {
    pub path: String,
    pub content: OutputContent,
}

/// The mathematical shape of one planned output.
pub enum OutputV {
    Bytes(Seq<char>, Seq<u8>),
    CopyFrom(Seq<char>, Seq<char>),
}

impl View for OutputFile {
    type V = OutputV;

    open spec fn view(&self) -> OutputV {
        match &self.content {
            OutputContent::Bytes(data) => OutputV::Bytes(self.path@, data@),
            OutputContent::CopyFrom(loc) => OutputV::CopyFrom(self.path@, loc@),
        }
    }
}

/// The views of a write plan.
pub open spec fn outputs_view(outs: Seq<OutputFile>) -> Seq<OutputV> {
    outs.map_values(|f: OutputFile| f@)
}

/// The name map that outlives the pipeline, handed to the templating
/// collaborator so pages can refer to assets by their fingerprinted names.
pub struct ResourceHelper {
    pub hash_map: NameTable,
}

/// One `../` per directory separator in a path: the way from the asset's
/// own output location back up to the destination root.
pub open spec fn spec_path_to_root(p: Seq<char>) -> Seq<char>
    decreases p.len(),
{
    if p.len() == 0 {
        Seq::empty()
    } else {
        (if p[0] == '/' {
            "../"@
        } else {
            Seq::<char>::empty()
        }) + spec_path_to_root(p.drop_first())
    }
}

/// Compute the way back to the destination root from a path.
pub fn path_to_root(path: &str) -> (r: String)
    ensures
        r@ == spec_path_to_root(path@),
{
    let v = crate::utils::str_chars(path);
    let n = v.len();
    let mut out: Vec<char> = Vec::new();
    let mut i: usize = 0;
    assert(path@.skip(0) =~= path@);
    while i < n
        invariant
            0 <= i <= n,
            n == v@.len(),
            v@ == path@,
            spec_path_to_root(path@) =~= out@ + spec_path_to_root(path@.skip(i as int)),
        decreases n - i,
    {
        proof {
            reveal_strlit("../");
            assert(path@.skip(i as int)[0] == path@[i as int]);
            assert(path@.skip(i as int).drop_first() =~= path@.skip(i + 1));
        }
        if v[i] == '/' {
            out.push('.');
            out.push('.');
            out.push('/');
            proof {
                reveal_strlit("../");
                assert("../"@ =~= seq!['.', '.', '/']);
            }
        }
        i = i + 1;
    }
    assert(path@.skip(n as int) =~= Seq::<char>::empty());
    crate::utils::chars_to_string(&out)
}

/// Whether a final name marks a text asset whose directives are resolved:
/// a stylesheet or a script.
pub open spec fn spec_is_text_asset(name: Seq<char>) -> bool {
    crate::paths::seq_ends_with(name, ".css"@) || crate::paths::seq_ends_with(name, ".js"@)
}

/// Decide whether a name marks a text asset.
fn is_text_asset(name: &str) -> (r: bool)
    ensures
        r == spec_is_text_asset(name@),
{
    proof {
        reveal_strlit(".css");
        reveal_strlit(".js");
    }
    let v = crate::utils::str_chars(name);
    let css = crate::utils::str_chars(".css");
    let js = crate::utils::str_chars(".js");
    chars_ends_with(&v, &css) || chars_ends_with(&v, &js)
}

/// Whether `v` ends with `lit`.
fn chars_ends_with(v: &Vec<char>, lit: &Vec<char>) -> (r: bool)
    ensures
        r == crate::paths::seq_ends_with(v@, lit@),
{
    let n = v.len();
    let m = lit.len();
    if m > n {
        return false;
    }
    let base = n - m;
    let mut j: usize = 0;
    while j < m
        invariant
            0 <= j <= m,
            m <= n,
            base == n - m,
            n == v@.len(),
            m == lit@.len(),
            forall|k: int| 0 <= k < j ==> v@[base + k] == lit@[k],
        decreases m - j,
    {
        if v[base + j] != lit[j] {
            proof {
                if crate::paths::seq_ends_with(v@, lit@) {
                    assert(v@.skip(n - m)[j as int] == v@[base + j]);
                }
            }
            return false;
        }
        j = j + 1;
    }
    proof {
        assert(v@.skip(n - m) =~= lit@);
    }
    true
}

/// The bytes that open a resource directive: `{{ resource "`.
pub open spec fn directive_open() -> Seq<u8> {
    seq![123u8, 123u8, 32u8, 114u8, 101u8, 115u8, 111u8, 117u8, 114u8, 99u8, 101u8, 32u8, 34u8]
}

/// The bytes that close a resource directive: `" }}`.
pub open spec fn directive_close() -> Seq<u8> {
    seq![34u8, 32u8, 125u8, 125u8]
}

/// Whether `lit` occurs in `s` at position `i`.
pub open spec fn bytes_at(s: Seq<u8>, i: int, lit: Seq<u8>) -> bool {
    0 <= i && i + lit.len() <= s.len() && s.subrange(i, i + lit.len()) == lit
}

/// The position of the first `"` byte at or after `i`.
pub open spec fn spec_quote_byte_from(s: Seq<u8>, i: int) -> Option<int>
    decreases s.len() - i,
{
    if i < 0 || i >= s.len() {
        None
    } else if s[i] == 34u8 {
        Some(i)
    } else {
        spec_quote_byte_from(s, i + 1)
    }
}

/// The name inside a well-formed resource directive that starts at `i`:
/// the directive opening, a non-empty name with no quote in it, and the
/// directive closing.
pub open spec fn spec_directive_at(s: Seq<u8>, i: int) -> Option<(int, int)> {
    if bytes_at(s, i, directive_open()) {
        match spec_quote_byte_from(s, i + 13) {
            Some(q) => if q > i + 13 && bytes_at(s, q, directive_close()) {
                Some((i + 13, q))
            } else {
                None
            },
            None => None,
        }
    } else {
        None
    }
}

/// What a directive's name resolves to: the fingerprinted form recorded for
/// it, or the name itself when it is unknown (which the caller reports as a
/// warning, not an error).
pub open spec fn spec_resolve_name_bytes(
    pairs: Seq<(Seq<char>, Seq<char>)>,
    name: Seq<u8>,
) -> Seq<u8>
    decreases pairs.len(),
{
    if pairs.len() == 0 {
        name
    } else if vstd::utf8::encode_utf8(pairs[0].0) == name {
        vstd::utf8::encode_utf8(pairs[0].1)
    } else {
        spec_resolve_name_bytes(pairs.drop_first(), name)
    }
}

/// A text asset's bytes from position `i` on, with every well-formed
/// resource directive replaced by the way back to the root followed by the
/// resolved name.
pub open spec fn spec_rewrite_from(
    s: Seq<u8>,
    i: int,
    pairs: Seq<(Seq<char>, Seq<char>)>,
    ptr: Seq<u8>,
) -> Seq<u8>
    decreases s.len() - i,
{
    if i < 0 || i >= s.len() {
        Seq::empty()
    } else {
        match spec_directive_at(s, i) {
            Some(m) => if i < m.0 && m.0 < m.1 && m.1 + 4 <= s.len() {
                ptr + spec_resolve_name_bytes(pairs, s.subrange(m.0, m.1)) + spec_rewrite_from(
                    s,
                    m.1 + 4,
                    pairs,
                    ptr,
                )
            } else {
                seq![s[i]] + spec_rewrite_from(s, i + 1, pairs, ptr)
            },
            None => seq![s[i]] + spec_rewrite_from(s, i + 1, pairs, ptr),
        }
    }
}

/// The whole text asset, rewritten.
pub open spec fn spec_rewrite_directives(
    s: Seq<u8>,
    pairs: Seq<(Seq<char>, Seq<char>)>,
    ptr: Seq<u8>,
) -> Seq<u8> {
    spec_rewrite_from(s, 0, pairs, ptr)
}

/// Whether two byte vectors hold the same bytes.
fn bytes_eq(a: &Vec<u8>, b: &Vec<u8>) -> (r: bool)
    ensures
        r == (a@ == b@),
{
    let n = a.len();
    if b.len() != n {
        proof {
            assert(a@.len() != b@.len());
        }
        return false;
    }
    let mut i: usize = 0;
    while i < n
        invariant
            0 <= i <= n,
            n == a@.len(),
            n == b@.len(),
            forall|k: int| 0 <= k < i ==> a@[k] == b@[k],
        decreases n - i,
    {
        if a[i] != b[i] {
            return false;
        }
        i = i + 1;
    }
    proof {
        assert(a@ =~= b@);
    }
    true
}

/// Whether `lit` occurs in `v` at `i`, decided byte by byte.
fn bytes_starts_at(v: &Vec<u8>, i: usize, lit: &Vec<u8>) -> (r: bool)
    ensures
        r == bytes_at(v@, i as int, lit@),
{
    let n = v.len();
    let m = lit.len();
    if m > n || i > n - m {
        proof {
            assert(!(i + lit@.len() <= v@.len()));
        }
        return false;
    }
    let mut j: usize = 0;
    while j < m
        invariant
            0 <= j <= m,
            n == v@.len(),
            m == lit@.len(),
            i + m <= n,
            forall|k: int| 0 <= k < j ==> v@[i + k] == lit@[k],
        decreases m - j,
    {
        if v[i + j] != lit[j] {
            assert(v@.subrange(i as int, i + lit@.len())[j as int] == v@[i + j]);
            return false;
        }
        j = j + 1;
    }
    assert(v@.subrange(i as int, i + lit@.len()) =~= lit@);
    true
}

/// Find the first `"` byte at or after `from`.
fn find_quote_byte(v: &Vec<u8>, from: usize) -> (r: Option<usize>)
    ensures
        match r {
            Some(q) => spec_quote_byte_from(v@, from as int) == Some(q as int),
            None => spec_quote_byte_from(v@, from as int) is None,
        },
{
    let n = v.len();
    let mut i: usize = from;
    while i < n
        invariant
            from <= i,
            n == v@.len(),
            spec_quote_byte_from(v@, from as int) == spec_quote_byte_from(v@, i as int),
        decreases n - i,
    {
        if v[i] == 34u8 {
            return Some(i);
        }
        i = i + 1;
    }
    None
}

/// Append every byte of `v` to `out`.
fn push_all_bytes(out: &mut Vec<u8>, v: &Vec<u8>)
    ensures
        final (out)@ == old(out)@ + v@,
{
    let n = v.len();
    let ghost base = out@;
    let mut k: usize = 0;
    while k < n
        invariant
            0 <= k <= n,
            n == v@.len(),
            out@ =~= base + v@.subrange(0, k as int),
        decreases n - k,
    {
        out.push(v[k]);
        k = k + 1;
    }
    assert(out@ =~= base + v@);
}

/// The directive opening as exec bytes.
fn directive_open_bytes() -> (r: Vec<u8>)
    ensures
        r@ == directive_open(),
{
    let mut v: Vec<u8> = Vec::new();
    v.push(123u8);
    v.push(123u8);
    v.push(32u8);
    v.push(114u8);
    v.push(101u8);
    v.push(115u8);
    v.push(111u8);
    v.push(117u8);
    v.push(114u8);
    v.push(99u8);
    v.push(101u8);
    v.push(32u8);
    v.push(34u8);
    assert(v@ =~= directive_open());
    v
}

/// The directive closing as exec bytes.
fn directive_close_bytes() -> (r: Vec<u8>)
    ensures
        r@ == directive_close(),
{
    let mut v: Vec<u8> = Vec::new();
    v.push(34u8);
    v.push(32u8);
    v.push(125u8);
    v.push(125u8);
    assert(v@ =~= directive_close());
    v
}

/// Resolve one directive name through the recorded renames.
fn resolve_name_bytes(table: &NameTable, name: &Vec<u8>) -> (r: Vec<u8>)
    ensures
        r@ == spec_resolve_name_bytes(table_view(*table), name@),
{
    let n = table.entries.len();
    let ghost pairs = table_view(*table);
    let mut i: usize = 0;
    assert(pairs.skip(0) =~= pairs);
    while i < n
        invariant
            0 <= i <= n,
            n == table.entries@.len(),
            pairs == table_view(*table),
            pairs.len() == n,
            spec_resolve_name_bytes(pairs, name@) == spec_resolve_name_bytes(
                pairs.skip(i as int),
                name@,
            ),
        decreases n - i,
    {
        proof {
            assert(pairs.skip(i as int)[0] == pairs[i as int]);
            assert(pairs[i as int] == (table.entries@[i as int].0@, table.entries@[i as int].1@));
            assert(pairs.skip(i as int).drop_first() =~= pairs.skip(i + 1));
        }
        let key_bytes = table.entries[i].0.as_str().as_bytes_vec();
        if bytes_eq(&key_bytes, name) {
            let val_bytes = table.entries[i].1.as_str().as_bytes_vec();
            return val_bytes;
        }
        i = i + 1;
    }
    proof {
        assert(pairs.skip(n as int) =~= Seq::<(Seq<char>, Seq<char>)>::empty());
    }
    // A reference to an unknown resource is not fatal: the literal name
    // stands in, and the build goes on.
    crate::errors::log_line("A resource directive names an unknown resource");
    let mut out: Vec<u8> = Vec::new();
    push_all_bytes(&mut out, name);
    assert(out@ =~= name@);
    out
}

/// Replace every well-formed `{{ resource "<name>" }}` directive in a text
/// asset with the relative path to the named asset's final location.
fn rewrite_directives(data: &Vec<u8>, table: &NameTable, ptr: &Vec<u8>) -> (r: Vec<u8>)
    ensures
        r@ == spec_rewrite_directives(data@, table_view(*table), ptr@),
{
    let n = data.len();
    let open_lit = directive_open_bytes();
    let close_lit = directive_close_bytes();
    let mut out: Vec<u8> = Vec::new();
    let mut i: usize = 0;
    assert(out@ + spec_rewrite_from(data@, 0, table_view(*table), ptr@) =~= spec_rewrite_directives(
        data@,
        table_view(*table),
        ptr@,
    ));
    while i < n
        invariant
            0 <= i <= n,
            n == data@.len(),
            open_lit@ == directive_open(),
            close_lit@ == directive_close(),
            spec_rewrite_directives(data@, table_view(*table), ptr@) =~= out@ + spec_rewrite_from(
                data@,
                i as int,
                table_view(*table),
                ptr@,
            ),
        decreases n - i,
    {
        let mut matched: Option<(usize, usize)> = None;
        if bytes_starts_at(data, i, &open_lit) {
            match find_quote_byte(data, i + 13) {
                Some(q) => {
                    if q > i + 13 && bytes_starts_at(data, q, &close_lit) {
                        matched = Some((i + 13, q));
                    }
                },
                None => {},
            }
        }
        match matched {
            Some((ns, ne)) => {
                proof {
                    assert(spec_directive_at(data@, i as int) == Some((ns as int, ne as int)));
                    lemma_quote_byte_bounds(data@, i + 13);
                }
                let name = subbytes(data, ns, ne);
                let resolved = resolve_name_bytes(table, &name);
                push_all_bytes(&mut out, ptr);
                push_all_bytes(&mut out, &resolved);
                i = ne + 4;
            },
            None => {
                proof {
                    match spec_directive_at(data@, i as int) {
                        Some(m) => {
                            assert(false);
                        },
                        None => {},
                    }
                }
                out.push(data[i]);
                i = i + 1;
            },
        }
    }
    out
}

/// A found quote byte lies between the scan start and the end.
proof fn lemma_quote_byte_bounds(s: Seq<u8>, i: int)
    ensures
        match spec_quote_byte_from(s, i) {
            Some(q) => i <= q < s.len(),
            None => true,
        },
    decreases s.len() - i,
{
    if i < 0 || i >= s.len() {
    } else if s[i] == 34u8 {
    } else {
        lemma_quote_byte_bounds(s, i + 1);
    }
}

/// The first text asset whose bytes the write phase needs but the caller
/// did not supply, if any.
pub open spec fn spec_write_missing(
    files: Seq<AssetV>,
    sources: Seq<(String, Vec<u8>)>,
) -> Option<Seq<char>>
    decreases files.len(),
{
    if files.len() == 0 {
        None
    } else {
        match files[0] {
            AssetV::Additional(name, loc) => {
                if spec_is_text_asset(name) && spec_assoc(sources, loc) is None {
                    Some(loc)
                } else {
                    spec_write_missing(files.drop_first(), sources)
                }
            },
            AssetV::Builtin(_, _) => spec_write_missing(files.drop_first(), sources),
        }
    }
}

/// What the write phase plans for one asset: text assets (by final name)
/// have their directives resolved against the name map and are written from
/// bytes; every other asset is copied byte-for-byte, builtin ones from
/// their bundled bytes and user-supplied ones from their input location.
pub open spec fn spec_write_one(
    f: AssetV,
    pairs: Seq<(Seq<char>, Seq<char>)>,
    sources: Seq<(String, Vec<u8>)>,
) -> OutputV {
    match f {
        AssetV::Builtin(name, data) => if spec_is_text_asset(name) {
            OutputV::Bytes(
                name,
                spec_rewrite_directives(
                    data,
                    pairs,
                    vstd::utf8::encode_utf8(spec_path_to_root(name)),
                ),
            )
        } else {
            OutputV::Bytes(name, data)
        },
        AssetV::Additional(name, loc) => if spec_is_text_asset(name) {
            match spec_assoc(sources, loc) {
                Some(bytes) => OutputV::Bytes(
                    name,
                    spec_rewrite_directives(
                        bytes@,
                        pairs,
                        vstd::utf8::encode_utf8(spec_path_to_root(name)),
                    ),
                ),
                None => OutputV::CopyFrom(name, loc),
            }
        } else {
            OutputV::CopyFrom(name, loc)
        },
    }
}

impl StaticFiles {
    /// Plan the write of every asset exactly once: resolve the resource
    /// directives of text assets against the recorded renames, pass every
    /// other asset through byte-for-byte, and hand the name map on.  The
    /// catalog is consumed, so a pipeline cannot write twice.  The bytes of
    /// user-supplied text assets are taken from `sources`; if one is
    /// missing there, the phase fails with `IoFailure` on the first such
    /// location.
    pub fn write_files(self, sources: &BytesStore) -> (r: Result<
        (Vec<OutputFile>, ResourceHelper),
        Error,
    >)
        ensures
            match r {
                Ok(pair) => {
                    &&& spec_write_missing(assets_view(self.static_files@), sources.entries@)
                        is None
                    &&& outputs_view(pair.0@) == assets_view(self.static_files@).map_values(
                        |f: AssetV| spec_write_one(f, table_view(self.hash_map), sources.entries@),
                    )
                    &&& pair.1.hash_map == self.hash_map
                },
                Err(e) => match e@ {
                    ErrorV::IoFailure(loc) => spec_write_missing(
                        assets_view(self.static_files@),
                        sources.entries@,
                    ) == Some(loc),
                    _ => false,
                },
            },
    {
        let ghost files0 = assets_view(self.static_files@);
        let ghost pairs = table_view(self.hash_map);
        let n = self.static_files.len();
        let mut outs: Vec<OutputFile> = Vec::new();
        let mut i: usize = 0;
        assert(files0.skip(0) =~= files0);
        assert(outputs_view(outs@) =~= files0.take(0).map_values(
            |f: AssetV| spec_write_one(f, pairs, sources.entries@),
        ));
        while i < n
            invariant
                0 <= i <= n,
                n == self.static_files@.len(),
                files0 == assets_view(self.static_files@),
                pairs == table_view(self.hash_map),
                spec_write_missing(files0, sources.entries@) == spec_write_missing(
                    files0.skip(i as int),
                    sources.entries@,
                ),
                outputs_view(outs@) =~= files0.take(i as int).map_values(
                    |f: AssetV| spec_write_one(f, pairs, sources.entries@),
                ),
            decreases n - i,
        {
            proof {
                assert(files0.skip(i as int)[0] == files0[i as int]);
                assert(files0.skip(i as int).drop_first() =~= files0.skip(i + 1));
                assert(files0[i as int] == self.static_files@[i as int]@);
            }
            let out: OutputFile;
            match &self.static_files[i] {
                StaticFile::Builtin { data, filename } => {
                    if is_text_asset(filename.as_str()) {
                        let ptr = path_to_root(filename.as_str()).as_str().as_bytes_vec();
                        let rewritten = rewrite_directives(data, &self.hash_map, &ptr);
                        out = OutputFile {
                            path: filename.clone(),
                            content: OutputContent::Bytes(rewritten),
                        };
                    } else {
                        let copied = subbytes(data, 0, data.len());
                        proof {
                            assert(copied@ =~= data@);
                        }
                        out = OutputFile {
                            path: filename.clone(),
                            content: OutputContent::Bytes(copied),
                        };
                    }
                },
                StaticFile::Additional { input_location, filename } => {
                    if is_text_asset(filename.as_str()) {
                        match sources.get(input_location) {
                            Some(bytes) => {
                                let ptr = path_to_root(filename.as_str()).as_str().as_bytes_vec();
                                let rewritten = rewrite_directives(bytes, &self.hash_map, &ptr);
                                out = OutputFile {
                                    path: filename.clone(),
                                    content: OutputContent::Bytes(rewritten),
                                };
                            },
                            None => {
                                return Err(Error::IoFailure(input_location.clone()));
                            },
                        }
                    } else {
                        out = OutputFile {
                            path: filename.clone(),
                            content: OutputContent::CopyFrom(input_location.clone()),
                        };
                    }
                },
            }
            outs.push(out);
            proof {
                assert(files0.take(i + 1) =~= files0.take(i as int).push(files0[i as int]));
                assert(files0.take(i + 1).map_values(
                    |f: AssetV| spec_write_one(f, pairs, sources.entries@),
                ) =~= files0.take(i as int).map_values(
                    |f: AssetV| spec_write_one(f, pairs, sources.entries@),
                ).push(spec_write_one(files0[i as int], pairs, sources.entries@)));
                assert(outputs_view(outs@) =~= files0.take(i + 1).map_values(
                    |f: AssetV| spec_write_one(f, pairs, sources.entries@),
                ));
            }
            i = i + 1;
        }
        proof {
            assert(files0.take(n as int) =~= files0);
            assert(files0.skip(n as int) =~= Seq::<AssetV>::empty());
        }
        Ok((outs, ResourceHelper { hash_map: self.hash_map }))
    }
}

/// Decide whether a user-supplied name gets a fingerprint.
fn split_is_hashable(name: &str) -> (r: bool)
    ensures
        r == spec_hashable_additional(name@),
{
    match split_name(name) {
        None => false,
        Some((base, ext)) => base.as_str().unicode_len() > 0 && ext.as_str().unicode_len()
            > 0,
    }
}

/// Decide whether a builtin name gets a fingerprint.
fn split_is_hashable_builtin(name: &str) -> (r: bool)
    ensures
        r == spec_hashable_builtin(name@),
{
    proof {
        reveal_strlit("txt");
        reveal_strlit("FontAwesome/fonts/");
    }
    match split_name(name) {
        None => false,
        Some((base, ext)) => {
            let bl = base.as_str().unicode_len();
            if bl == 0 || ext.as_str().unicode_len() == 0 {
                return false;
            }
            if str_eq_lit(ext.as_str(), "txt") {
                return false;
            }
            let fa = "FontAwesome/fonts/";
            let fal = fa.unicode_len();
            if bl >= fal {
                let head = base.as_str().substring_char(0, fal);
                if str_eq_lit(head, "FontAwesome/fonts/") {
                    return false;
                }
                assert(base@.take("FontAwesome/fonts/"@.len() as int) == head@);
                true
            } else {
                true
            }
        },
    }
}

/// Compare two strings for equality, character by character.
fn str_eq_lit(a: &str, b: &str) -> (r: bool)
    ensures
        r == (a@ == b@),
{
    let va = crate::utils::str_chars(a);
    let vb = crate::utils::str_chars(b);
    let n = va.len();
    if vb.len() != n {
        proof {
            assert(a@.len() != b@.len());
        }
        return false;
    }
    let mut i: usize = 0;
    while i < n
        invariant
            0 <= i <= n,
            n == va@.len(),
            n == vb@.len(),
            va@ == a@,
            vb@ == b@,
            forall|k: int| 0 <= k < i ==> a@[k] == b@[k],
        decreases n - i,
    {
        if va[i] != vb[i] {
            return false;
        }
        i = i + 1;
    }
    proof {
        assert(a@ =~= b@);
    }
    true
}

} // verus!
