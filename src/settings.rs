use vstd::prelude::*;

verus! {

/// What a sorting rule is, as plain sequences of characters.
#[verifier::ext_equal]
pub struct PatternView {
    pub extensions: Seq<Seq<char>>,
    pub mime_types: Seq<Seq<char>>,
    pub destination: Seq<char>,
}

/// One sorting rule: files whose lowercased extension is among `extensions`
/// (or, for files without an extension, whose content is of one of
/// `mime_types`) go to the subdirectory `destination`.
#[derive(Clone, Debug)]
pub struct SortPattern {
    pub extensions: Vec<String>,
    pub mime_types: Vec<String>,
    pub destination: String,
}

impl View for SortPattern {
    type V = PatternView;

    open spec fn view(&self) -> PatternView {
        PatternView {
            extensions: self.extensions.deep_view(),
            mime_types: self.mime_types.deep_view(),
            destination: self.destination@,
        }
    }
}

/// One rule of the built-in defaults: no content types.
pub open spec fn rule(extensions: Seq<Seq<char>>, destination: Seq<char>) -> PatternView {
    PatternView { extensions, mime_types: seq![], destination }
}

/// The built-in rule set, in declaration order.
pub open spec fn default_rules() -> Seq<PatternView> {
    seq![
        rule(seq!["7z"@, "gz"@, "rar"@, "tar"@, "tgz"@, "xz"@, "zip"@, "zst"@], "archives"@),
        rule(seq!["flac"@, "mp3"@, "ogg"@, "opus"@, "wav"@], "audio"@),
        rule(seq!["exe"@, "bin"@], "binary"@),
        rule(seq!["gif"@, "jpeg"@, "jpg"@, "png"@, "tif"@], "images"@),
        rule(seq!["avi"@, "mkv"@, "mp4"@], "videos"@),
        rule(
            seq![
                "csv"@, "djvu"@, "doc"@, "docx"@, "epub"@, "odt"@, "pdf"@, "ppt"@, "pptx"@,
                "txt"@,
            ],
            "docs"@,
        ),
        rule(seq!["rpm"@, "spec"@], "rpm-packages"@),
        rule(seq!["deb"@], "debian-packages"@),
        rule(seq!["apk"@, "apkx"@], "apks"@),
        rule(seq!["torrent"@], "torrents"@),
        rule(seq!["jar"@], "jars"@),
        rule(seq!["xml"@], "xml"@),
        rule(seq!["img"@], "raw"@),
        rule(seq!["eot"@, "ttf"@, "woff"@, "woff2"@], "fonts"@),
        rule(seq!["ovpn"@], "openvpn-profiles"@),
        rule(seq!["pcap"@], "captured-packages"@),
    ]
}

/// The settings that a first run, or a corrupt file, falls back to: no
/// sources, an empty destination, no date folder, and the built-in rules.
pub open spec fn default_settings() -> SettingsView {
    SettingsView {
        sources: seq![],
        destination: seq![],
        use_date_pattern: false,
        date_pattern: seq![],
        rules: default_rules(),
    }
}

/// What the settings are, as plain values.
#[verifier::ext_equal]
pub struct SettingsView {
    pub sources: Seq<Seq<char>>,
    pub destination: Seq<char>,
    pub use_date_pattern: bool,
    pub date_pattern: Seq<char>,
    pub rules: Seq<PatternView>,
}

/// The persisted configuration: the directories to scan, where sorted files
/// go, whether a folder named after each file's modification date is put
/// before the rule's subdirectory, and the rules in declaration order.
#[derive(Clone, Debug)]
pub struct Settings {
    pub sources: Vec<String>,
    pub destination: String,
    pub use_date_pattern: bool,
    pub date_pattern: String,
    pub sort_patterns: Vec<SortPattern>,
}

impl View for Settings {
    type V = SettingsView;

    open spec fn view(&self) -> SettingsView {
        SettingsView {
            sources: self.sources.deep_view(),
            destination: self.destination@,
            use_date_pattern: self.use_date_pattern,
            date_pattern: self.date_pattern@,
            rules: rules_view(self.sort_patterns@),
        }
    }
}

/// The rules as plain values, in declaration order.
pub open spec fn rules_view(patterns: Seq<SortPattern>) -> Seq<PatternView> {
    patterns.map_values(|p: SortPattern| p@)
}

fn pattern(extensions: &[&str], destination: &str) -> (r: SortPattern)
    ensures
        r@ == rule(extensions@.map_values(|s: &str| s@), destination@),
{
    let r = SortPattern {
        extensions: strings(extensions),
        mime_types: Vec::new(),
        destination: String::from_str(destination),
    };
    assert(r.mime_types.deep_view() =~= seq![]);
    r
}

impl Default for Settings {
    fn default() -> (r: Settings)
        ensures
            r@ == default_settings(),
    {
        let sort_patterns = vec![
            pattern(&["7z", "gz", "rar", "tar", "tgz", "xz", "zip", "zst"], "archives"),
            pattern(&["flac", "mp3", "ogg", "opus", "wav"], "audio"),
            pattern(&["exe", "bin"], "binary"),
            pattern(&["gif", "jpeg", "jpg", "png", "tif"], "images"),
            pattern(&["avi", "mkv", "mp4"], "videos"),
            pattern(
                &["csv", "djvu", "doc", "docx", "epub", "odt", "pdf", "ppt", "pptx", "txt"],
                "docs",
            ),
            pattern(&["rpm", "spec"], "rpm-packages"),
            pattern(&["deb"], "debian-packages"),
            pattern(&["apk", "apkx"], "apks"),
            pattern(&["torrent"], "torrents"),
            pattern(&["jar"], "jars"),
            pattern(&["xml"], "xml"),
            pattern(&["img"], "raw"),
            pattern(&["eot", "ttf", "woff", "woff2"], "fonts"),
            pattern(&["ovpn"], "openvpn-profiles"),
            pattern(&["pcap"], "captured-packages"),
        ];
        let r = Settings {
            sources: Vec::new(),
            destination: String::new(),
            use_date_pattern: false,
            date_pattern: String::new(),
            sort_patterns,
        };
        assert(r.sources.deep_view() =~= seq![]);
        assert(r@.rules =~~= default_rules());
        r
    }
}

impl Settings {
    /// Appends a directory to scan.
    pub fn add_source(&mut self, source: String) -> (r: &mut Self)
        ensures
            r@ == (SettingsView { sources: old(self)@.sources.push(source@), ..old(self)@ }),
            *final(self) == *final(r),
    {
        let ghost before = self.sources.deep_view();
        self.sources.push(source);
        assert(self.sources.deep_view() =~= before.push(source@));
        self
    }

    /// Sets the directory under which sorted files go.
    pub fn destination(&mut self, destination: String) -> (r: &mut Self)
        ensures
            r@ == (SettingsView { destination: destination@, ..old(self)@ }),
            *final(self) == *final(r),
    {
        self.destination = destination;
        self
    }

    /// Turns the date folder on or off.
    pub fn use_date_pattern(&mut self, use_date_pattern: bool) -> (r: &mut Self)
        ensures
            r@ == (SettingsView { use_date_pattern, ..old(self)@ }),
            *final(self) == *final(r),
    {
        self.use_date_pattern = use_date_pattern;
        self
    }

    /// Sets the strftime-style pattern that names the date folder.
    pub fn date_pattern(&mut self, date_pattern: String) -> (r: &mut Self)
        ensures
            r@ == (SettingsView { date_pattern: date_pattern@, ..old(self)@ }),
            *final(self) == *final(r),
    {
        self.date_pattern = date_pattern;
        self
    }

    /// Decides what loading yields from what was found at the settings path,
    /// and what must then be done to the file.
    pub fn resolve_read(read: ConfigRead) -> (r: (Settings, LoadAction))
        ensures
            r.0@ == loaded(read),
            r.1 == load_action(read),
    {
        match read {
            ConfigRead::Parsed(settings) => (settings, LoadAction::UseAsIs),
            ConfigRead::Missing => (Settings::default(), LoadAction::WriteDefaults),
            ConfigRead::Malformed => (Settings::default(), LoadAction::SetAsideThenWriteDefaults),
        }
    }
}

/// What was found at the settings path.
pub enum ConfigRead {
    /// No file could be opened there.
    Missing,
    /// The file held well-formed settings.
    Parsed(Settings),
    /// The file could not be decoded as settings.
    Malformed,
}

/// What loading must do to the settings file after deciding.
#[derive(PartialEq, Eq, Structural, Clone, Copy, Debug)]
pub enum LoadAction {
    /// Leave the file as it is.
    UseAsIs,
    /// Write the defaults there, so that the next load finds them.
    WriteDefaults,
    /// Rename the file to its `invalid_name`, then write the defaults.
    SetAsideThenWriteDefaults,
}

/// The settings that a load yields.
pub open spec fn loaded(read: ConfigRead) -> SettingsView {
    match read {
        ConfigRead::Parsed(settings) => settings@,
        _ => default_settings(),
    }
}

/// What a load does to the file.
pub open spec fn load_action(read: ConfigRead) -> LoadAction {
    match read {
        ConfigRead::Parsed(_) => LoadAction::UseAsIs,
        ConfigRead::Missing => LoadAction::WriteDefaults,
        ConfigRead::Malformed => LoadAction::SetAsideThenWriteDefaults,
    }
}

/// A corrupt settings file is set aside rather than overwritten, and the
/// load that finds it yields the defaults; once the defaults it wrote are
/// read back, the next load yields the same defaults and leaves the file
/// alone.
pub proof fn lemma_corrupt_file_recovers(written_back: Settings)
    requires
        written_back@ == loaded(ConfigRead::Malformed),
    ensures
        load_action(ConfigRead::Malformed) == LoadAction::SetAsideThenWriteDefaults,
        loaded(ConfigRead::Malformed) == default_settings(),
        loaded(ConfigRead::Parsed(written_back)) == default_settings(),
        load_action(ConfigRead::Parsed(written_back)) == LoadAction::UseAsIs,
{
}

/// Settings that decode are taken as they are, field for field, and the
/// file is left alone.
pub proof fn lemma_saved_settings_load_unchanged(saved: Settings)
    ensures
        loaded(ConfigRead::Parsed(saved)) == saved@,
        load_action(ConfigRead::Parsed(saved)) == LoadAction::UseAsIs,
{
}

/// The name under which a corrupt settings file is kept.
pub fn invalid_name(file_name: &str) -> (r: String)
    ensures
        r@ == file_name@ + ".invalid"@,
{
    let mut r = String::from_str(file_name);
    r.append(".invalid");
    r
}

/// The name under which the previous settings file is kept when the
/// settings are initialised anew.
pub fn backup_name(file_name: &str) -> (r: String)
    ensures
        r@ == file_name@ + ".old"@,
{
    let mut r = String::from_str(file_name);
    r.append(".old");
    r
}

fn strings(items: &[&str]) -> (r: Vec<String>)
    ensures
        r.deep_view() == items@.map_values(|s: &str| s@),
{
    let mut r: Vec<String> = Vec::new();
    let mut i: usize = 0;
    while i < items.len()
        invariant
            i <= items@.len(),
            r@.len() == i,
            r.deep_view() == items@.subrange(0, i as int).map_values(|s: &str| s@),
        decreases items@.len() - i,
    {
        let ghost before = r.deep_view();
        r.push(String::from_str(items[i]));
        i = i + 1;
        assert forall|j: int| 0 <= j < i implies #[trigger] r.deep_view()[j] == items@[j]@ by {
            if j < i - 1 {
                assert(before[j] == items@.subrange(0, i - 1).map_values(|s: &str| s@)[j]);
            }
        }
        assert(r.deep_view() =~= items@.subrange(0, i as int).map_values(|s: &str| s@));
    }
    assert(items@.subrange(0, i as int) =~= items@);
    r
}

} // verus!
