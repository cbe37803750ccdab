use vstd::prelude::*;

verus! {

/// One row of an alias table: a canonical identifier and the names vendors use for it.
pub type AliasRow = (String, Vec<String>);

/// Mathematical model of a row.
pub type RowModel = (Seq<char>, Seq<Seq<char>>);

/// Index of the first row at or after `i` whose identifier is `key`.
pub open spec fn find_from<V>(rows: Seq<(Seq<char>, V)>, key: Seq<char>, i: nat) -> Option<nat>
    decreases rows.len() - i,
{
    if i >= rows.len() {
        None
    } else if rows[i as int].0 == key {
        Some(i)
    } else {
        find_from(rows, key, i + 1)
    }
}

/// The alias list that `rows` gives to `key`: that of the first row naming it.
pub open spec fn aliases_of<V>(rows: Seq<(Seq<char>, V)>, key: Seq<char>) -> Option<V> {
    match find_from(rows, key, 0) {
        Some(i) => Some(rows[i as int].1),
        None => None,
    }
}

/// Mapping from canonical operating-system and architecture identifiers to the
/// ordered lists of their aliases. The order of the aliases is the probe order.
pub struct AliasTable {
    pub os: Vec<AliasRow>,
    pub arch: Vec<AliasRow>,
}

impl AliasTable {
    pub open spec fn os_rows(&self) -> Seq<RowModel> {
        self.os.deep_view()
    }

    pub open spec fn arch_rows(&self) -> Seq<RowModel> {
        self.arch.deep_view()
    }

    /// Aliases of the operating system `os`, if the table knows it.
    pub fn os_aliases(&self, os: &String) -> (r: Option<&Vec<String>>)
        ensures
            r is Some <==> aliases_of(self.os_rows(), os@) is Some,
            r is Some ==> r->Some_0.deep_view() == aliases_of(self.os_rows(), os@)->Some_0,
    {
        match find_row(&self.os, os) {
            Some(i) => Some(&self.os[i].1),
            None => None,
        }
    }

    /// Aliases of the architecture `arch`, if the table knows it.
    pub fn arch_aliases(&self, arch: &String) -> (r: Option<&Vec<String>>)
        ensures
            r is Some <==> aliases_of(self.arch_rows(), arch@) is Some,
            r is Some ==> r->Some_0.deep_view() == aliases_of(self.arch_rows(), arch@)->Some_0,
    {
        match find_row(&self.arch, arch) {
            Some(i) => Some(&self.arch[i].1),
            None => None,
        }
    }
}

/// Position of the first row whose identifier is `key`.
pub fn find_row<V: DeepView>(rows: &Vec<(String, V)>, key: &String) -> (r: Option<usize>)
    ensures
        r matches Some(i) ==> i < rows.len() && find_from(rows.deep_view(), key@, 0) == Some(i as nat),
        r is None ==> find_from(rows.deep_view(), key@, 0) is None,
{
    let ghost model = rows.deep_view();
    let mut i: usize = 0;
    while i < rows.len()
        invariant
            i <= rows.len(),
            model == rows.deep_view(),
            find_from(model, key@, 0) == find_from(model, key@, i as nat),
        decreases rows.len() - i,
    {
        if rows[i].0 == *key {
            return Some(i);
        }
        i = i + 1;
    }
    None
}

/// A found row sits in bounds and carries the key looked for.
pub proof fn lemma_find_from_hit<V>(rows: Seq<(Seq<char>, V)>, key: Seq<char>, i: nat)
    ensures
        find_from(rows, key, i) matches Some(j) ==> i <= j < rows.len() && rows[j as int].0 == key,
    decreases rows.len() - i,
{
    if i < rows.len() && rows[i as int].0 != key {
        lemma_find_from_hit(rows, key, i + 1);
    }
}

/// The built-in rows for operating systems.
pub open spec fn default_os_rows() -> Seq<RowModel> {
    seq![
        ("macos"@, seq!["macos"@, "darwin"@, "mac"@, "apple"@]),
        ("linux"@, seq!["linux"@]),
        ("windows"@, seq!["windows"@]),
        ("freebsd"@, seq!["freebsd"@]),
    ]
}

/// The built-in rows for architectures.
pub open spec fn default_arch_rows() -> Seq<RowModel> {
    seq![
        ("x86_64"@, seq!["x86_64"@, "amd64"@, "amd"@, "intel"@]),
        ("aarch64"@, seq!["aarch64"@, "arm64"@, "m1"@]),
    ]
}

fn names1(a: &str) -> (r: Vec<String>)
    ensures
        r.deep_view() == seq![a@],
{
    let r = vec![a.to_owned()];
    assert(r.deep_view() =~= seq![a@]);
    r
}

fn names3(a: &str, b: &str, c: &str) -> (r: Vec<String>)
    ensures
        r.deep_view() == seq![a@, b@, c@],
{
    let r = vec![a.to_owned(), b.to_owned(), c.to_owned()];
    assert(r.deep_view() =~= seq![a@, b@, c@]);
    r
}

fn names4(a: &str, b: &str, c: &str, d: &str) -> (r: Vec<String>)
    ensures
        r.deep_view() == seq![a@, b@, c@, d@],
{
    let r = vec![a.to_owned(), b.to_owned(), c.to_owned(), d.to_owned()];
    assert(r.deep_view() =~= seq![a@, b@, c@, d@]);
    r
}

/// The built-in table, used when no alias-table source is given.
pub fn default_table() -> (t: AliasTable)
    ensures
        t.os_rows() == default_os_rows(),
        t.arch_rows() == default_arch_rows(),
{
    let os = vec![
        ("macos".to_owned(), names4("macos", "darwin", "mac", "apple")),
        ("linux".to_owned(), names1("linux")),
        ("windows".to_owned(), names1("windows")),
        ("freebsd".to_owned(), names1("freebsd")),
    ];
    let arch = vec![
        ("x86_64".to_owned(), names4("x86_64", "amd64", "amd", "intel")),
        ("aarch64".to_owned(), names3("aarch64", "arm64", "m1")),
    ];
    assert(os.deep_view() =~= default_os_rows());
    assert(arch.deep_view() =~= default_arch_rows());
    AliasTable { os, arch }
}

/// What a YAML text holds when read as a mapping from section names to
/// mappings from identifiers to lists of strings.
pub uninterp spec fn yaml_sections(text: Seq<char>) -> Option<Seq<(Seq<char>, Seq<RowModel>)>>;

#[verifier::external_type_specification]
#[verifier::external_body]
pub struct ExYamlError(serde_yaml::Error);

/// Relies on serde_yaml::from_str, asked for a mapping of mappings of string
/// lists: it fails exactly when the text is no such document, and otherwise
/// keeps each list in the order the text gives it.
#[verifier::external_body]
fn read_sections(text: &str) -> (r: Result<Vec<(String, Vec<AliasRow>)>, serde_yaml::Error>)
    ensures
        r is Ok <==> yaml_sections(text@) is Some,
        r matches Ok(v) ==> v.deep_view() == yaml_sections(text@)->Some_0,
{
    serde_yaml::from_str::<
        std::collections::BTreeMap<String, std::collections::BTreeMap<String, Vec<String>>>,
    >(text).map(|m| m.into_iter().map(|(k, v)| (k, v.into_iter().collect())).collect())
}

/// Why an alias-table source was refused.
pub enum ConfigError {
    /// The text is not a document of the expected shape.
    Malformed(serde_yaml::Error),
    /// The document lacks the named top-level section.
    MissingSection(String),
}

/// The outcome of reading an alias-table text whose document is `sections`.
pub open spec fn table_outcome(
    sections: Seq<(Seq<char>, Seq<RowModel>)>,
    r: Result<AliasTable, ConfigError>,
) -> bool {
    match (aliases_of(sections, "os"@), aliases_of(sections, "arch"@)) {
        (Some(o), Some(a)) => r matches Ok(t) && t.os_rows() == o && t.arch_rows() == a,
        (None, _) => r matches Err(ConfigError::MissingSection(n)) && n@ == "os"@,
        (Some(_), None) => r matches Err(ConfigError::MissingSection(n)) && n@ == "arch"@,
    }
}

/// Reads an alias table from YAML text with top-level `os` and `arch`
/// mappings. The table holds exactly what the text gives: nothing is taken
/// from the built-in table.
pub fn parse_table(text: &str) -> (r: Result<AliasTable, ConfigError>)
    ensures
        yaml_sections(text@) is None ==> r matches Err(ConfigError::Malformed(_)),
        yaml_sections(text@) matches Some(s) ==> table_outcome(s, r),
{
    let mut sections = match read_sections(text) {
        Ok(v) => v,
        Err(e) => return Err(ConfigError::Malformed(e)),
    };
    let ghost model = sections.deep_view();
    let os_key = "os".to_owned();
    let arch_key = "arch".to_owned();
    let i_os = match find_row(&sections, &os_key) {
        Some(i) => i,
        None => return Err(ConfigError::MissingSection(os_key)),
    };
    let i_arch = match find_row(&sections, &arch_key) {
        Some(i) => i,
        None => return Err(ConfigError::MissingSection(arch_key)),
    };
    proof {
        lemma_find_from_hit(model, "os"@, 0);
        lemma_find_from_hit(model, "arch"@, 0);
        reveal_strlit("os");
        reveal_strlit("arch");
        assert("os"@.len() != "arch"@.len());
        assert(i_os != i_arch);
    }
    let (os, arch) = if i_os > i_arch {
        let o = sections.remove(i_os);
        let a = sections.remove(i_arch);
        (o.1, a.1)
    } else {
        let a = sections.remove(i_arch);
        let o = sections.remove(i_os);
        (o.1, a.1)
    };
    Ok(AliasTable { os, arch })
}

/// Loads the alias table: the built-in one when `source` is `None`, else the
/// one that the text `source` holds.
pub fn parse_config(source: Option<&str>) -> (r: Result<AliasTable, ConfigError>)
    ensures
        source is None ==> (r matches Ok(t) && t.os_rows() == default_os_rows() && t.arch_rows()
            == default_arch_rows()),
        source matches Some(text) ==> (yaml_sections(text@) is None ==> r matches Err(
            ConfigError::Malformed(_),
        )),
        source matches Some(text) ==> (yaml_sections(text@) matches Some(s) ==> table_outcome(
            s,
            r,
        )),
{
    match source {
        None => Ok(default_table()),
        Some(text) => parse_table(text),
    }
}

} // verus!
