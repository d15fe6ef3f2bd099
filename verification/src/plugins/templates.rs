//! Configuration templates for plugins: the built-in ones, templates made by
//! users, lookup by plugin, usage counting and the most used templates.
//! A template's configuration is JSON text; applying a template reads it
//! and fills the given values of its variables in. Saving templates to disk
//! is the owner's work.
//! Times are milliseconds.
use vstd::prelude::*;
use crate::keyed::{Keyed, Store, lemma_store_keys};
use crate::text::{owned, str_eq, strings_view, lowercase, to_lowercase};
use crate::dup::{Duplicate, views, dup_vec};
use crate::ids::{new_uuid_string, is_hyphenated_uuid};
use crate::clock::now_millis_unsigned;
use crate::order::{Ranked, sort_desc, sorted_desc, lemma_desc_pos, lemma_sort_desc};
use crate::plugins::types::{TemplateVariable, TemplateVariableView};
use crate::json::{JsonValue, JsonView, json_parsed, parse_json, nested_set, split_dots, typed, double_syntax, reads_as_number, set_nested_value};

verus! {

/// A reusable configuration for a plugin.
pub struct PluginTemplate {
    pub id: String,
    pub name: String,
    pub plugin_name: String,
    pub version: String,
    pub template_name: String,
    pub config_template: String,
    pub variables: Vec<TemplateVariable>,
    pub description: String,
    pub created_at: u64,
    pub usage_count: i64,
}

/// The plain content of a template.
pub struct TemplateView {
    pub id: Seq<char>,
    pub name: Seq<char>,
    pub plugin_name: Seq<char>,
    pub version: Seq<char>,
    pub template_name: Seq<char>,
    pub config_template: Seq<char>,
    pub variables: Seq<TemplateVariableView>,
    pub description: Seq<char>,
    pub created_at: u64,
    pub usage_count: i64,
}

impl View for PluginTemplate {
    type V = TemplateView;

    open spec fn view(&self) -> TemplateView {
        TemplateView {
            id: self.id@,
            name: self.name@,
            plugin_name: self.plugin_name@,
            version: self.version@,
            template_name: self.template_name@,
            config_template: self.config_template@,
            variables: views(self.variables@),
            description: self.description@,
            created_at: self.created_at,
            usage_count: self.usage_count,
        }
    }
}

impl Duplicate for PluginTemplate {
    fn dup(&self) -> (r: PluginTemplate) {
        PluginTemplate {
            id: self.id.clone(),
            name: self.name.clone(),
            plugin_name: self.plugin_name.clone(),
            version: self.version.clone(),
            template_name: self.template_name.clone(),
            config_template: self.config_template.clone(),
            variables: dup_vec(&self.variables),
            description: self.description.clone(),
            created_at: self.created_at,
            usage_count: self.usage_count,
        }
    }
}

impl Keyed for PluginTemplate {
    open spec fn key_view(&self) -> Seq<char> {
        self.id@
    }

    fn key_str(&self) -> (r: &str) {
        self.id.as_str()
    }
}

impl Ranked for TemplateView {
    open spec fn rank(&self) -> int {
        self.usage_count as int
    }
}

// ---------------------------------------------------------------------------
// Built-in templates
// ---------------------------------------------------------------------------

/// A variable with the given parts.
pub open spec fn variable(name: Seq<char>, var_type: Seq<char>, default_value: Seq<char>, description: Seq<char>,
    required: bool, options: Option<Seq<Seq<char>>>) -> TemplateVariableView {
    TemplateVariableView { name, var_type, default_value, description, required, options }
}

/// A template with the given parts, created at `now` and not used yet.
pub open spec fn template(id: Seq<char>, name: Seq<char>, plugin_name: Seq<char>, version: Seq<char>, template_name: Seq<char>,
    config: Seq<char>, variables: Seq<TemplateVariableView>, description: Seq<char>, now: u64) -> TemplateView {
    TemplateView {
        id,
        name,
        plugin_name,
        version,
        template_name,
        config_template: config,
        variables,
        description,
        created_at: now,
        usage_count: 0,
    }
}

/// The EssentialsX configuration text.
pub open spec fn essentials_config() -> Seq<char> {
    "{\" Essentials\":{\"debug\":false,\"enabled\":true,\"locale\":\"en\"},\"allow-duplicate-names\":false,\"allow-italic\":false,\"change-player-name\":false,\"force-color-codes\":false,\"max-player-name-length\":16,\"nickname-length\":16,\"socialspy\":{\"enabled\":false,\"socialSpyCosts\":100.0},\"use-color-codes\":false,\"zero-session-size\":\"kick\"}"@
}

/// The LuckPerms configuration text.
pub open spec fn luckperms_config() -> Seq<char> {
    "{\"broadcast\":{\"permission-not-found\":false},\"cache\":{\"expiry\":300},\"priorities\":{\"inheritance\":true,\"weight\":true},\"storage\":{\"dataSourceProperties\":{},\"type\":\"sqlite\"},\"sync\":{\"delay\":60,\"enabled\":true},\"workarounds\":{\"enabled\":true}}"@
}

/// The WorldEdit configuration text.
pub open spec fn worldedit_config() -> Seq<char> {
    "{\"clipboard\":{\"compression-level\":7,\"use-disk\":false},\"history\":{\"disk-size\":100,\"size\":25},\"logging\":{\"log-commands\":false,\"log-durations\":true,\"record-history\":true},\"region-selection\":{\"allow-cuboid-mode\":true,\"allow-glob-selection\":true,\"max-block-count\":-1,\"max-brush-radius\":20,\"max-poly-size\":30000}}"@
}

/// The built-in EssentialsX template with id `id`, made at `now`.
pub open spec fn essentials_template(id: Seq<char>, now: u64) -> TemplateView {
    template(id, "EssentialsX Configuration"@, "EssentialsX"@, "2.x"@, "default"@, essentials_config(),
        seq![
            variable("locale"@, "string"@, "en"@, "Language locale"@, false, Some(seq!["en"@, "zh_CN"@, "zh_TW"@])),
            variable("debug"@, "boolean"@, "false"@, "Enable debug mode"@, false, None),
        ],
        "Standard EssentialsX configuration with common settings"@, now)
}

/// The built-in LuckPerms template with id `id`, made at `now`.
pub open spec fn permissions_template(id: Seq<char>, now: u64) -> TemplateView {
    template(id, "LuckPerms Basic Setup"@, "LuckPerms"@, "5.x"@, "basic-setup"@, luckperms_config(),
        seq![
            variable("storage_type"@, "select"@, "sqlite"@, "Database type for storing permissions"@, true,
                Some(seq!["sqlite"@, "mysql"@, "mariadb"@, "postgresql"@, "h2"@])),
        ],
        "Basic LuckPerms setup with SQLite storage"@, now)
}

/// The built-in WorldEdit template with id `id`, made at `now`.
pub open spec fn worldedit_template(id: Seq<char>, now: u64) -> TemplateView {
    template(id, "WorldEdit Performance"@, "WorldEdit"@, "7.x"@, "performance"@, worldedit_config(), seq![],
        "Optimized WorldEdit configuration for better performance"@, now)
}

/// A variable with the given parts.
fn make_variable(name: &str, var_type: &str, default_value: &str, description: &str, required: bool, options: Option<Vec<String>>) -> (v: TemplateVariable)
    ensures
        v@ == variable(name@, var_type@, default_value@, description@, required,
            match options { Some(o) => Some(strings_view(o@)), None => None }),
{
    TemplateVariable {
        name: owned(name),
        var_type: owned(var_type),
        default_value: owned(default_value),
        description: owned(description),
        required,
        options,
    }
}

/// The templates of `s` for plugin `name`, compared without regard to case, in order.
pub open spec fn templates_for(s: Seq<TemplateView>, name: Seq<char>) -> Seq<TemplateView>
    decreases s.len(),
{
    if s.len() == 0 {
        seq![]
    } else if lowercase(s.last().plugin_name) == lowercase(name) {
        templates_for(s.drop_last(), name).push(s.last())
    } else {
        templates_for(s.drop_last(), name)
    }
}

/// The value given for the variable `name`: the first pair of `vals` whose
/// key is `name`.
pub open spec fn value_for(vals: Seq<(String, String)>, name: Seq<char>) -> Option<Seq<char>>
    decreases vals.len(),
{
    if vals.len() == 0 {
        None
    } else if vals[0].0@ == name {
        Some(vals[0].1@)
    } else {
        value_for(vals.drop_first(), name)
    }
}

/// `config` with the values of `vars` filled in, in order: each variable
/// with a value is set at the dotted path of its name, typed as written
/// (see `typed`), a number where the text reads as one.
pub open spec fn applied(config: JsonView, vars: Seq<TemplateVariableView>, vals: Seq<(String, String)>) -> JsonView
    decreases vars.len(),
{
    if vars.len() == 0 {
        config
    } else {
        let prev = applied(config, vars.drop_last(), vals);
        match value_for(vals, vars.last().name) {
            Some(v) => nested_set(prev, split_dots(vars.last().name), typed(v, double_syntax(v))),
            None => prev,
        }
    }
}

/// The value given for `name` in `vals` (see `value_for`).
fn find_value<'a>(vals: &'a Vec<(String, String)>, name: &str) -> (r: Option<&'a str>)
    ensures
        match value_for(vals@, name@) {
            Some(v) => r matches Some(x) && x@ == v,
            None => r is None,
        },
{
    let n = vals.len();
    let mut i: usize = 0;
    proof { assert(vals@.skip(0) =~= vals@); }
    while i < n
        invariant
            n == vals@.len(),
            i <= n,
            value_for(vals@, name@) == value_for(vals@.skip(i as int), name@),
        decreases n - i,
    {
        proof { assert(vals@.skip(i as int).drop_first() =~= vals@.skip(i + 1)); }
        if str_eq(vals[i].0.as_str(), name) {
            return Some(vals[i].1.as_str());
        }
        i = i + 1;
    }
    None
}

/// `config` with the values `vals` of the variables `variables` filled in
/// (see `applied`).
pub fn fill_variables(config: JsonValue, variables: &Vec<TemplateVariable>, vals: &Vec<(String, String)>) -> (r: JsonValue)
    ensures
        r@ == applied(config@, views(variables@), vals@),
{
    let ghost vs = views(variables@);
    let ghost c0 = config@;
    let n = variables.len();
    let mut cfg = config;
    let mut i: usize = 0;
    proof { assert(vs.take(0) =~= Seq::<TemplateVariableView>::empty()); }
    while i < n
        invariant
            n == variables@.len(),
            vs == views(variables@),
            i <= n,
            cfg@ == applied(c0, vs.take(i as int), vals@),
        decreases n - i,
    {
        proof {
            assert(vs.take(i + 1).drop_last() =~= vs.take(i as int));
            assert(vs.take(i + 1).last() == variables@[i as int]@);
        }
        let name = variables[i].name.as_str();
        match find_value(vals, name) {
            Some(v) => {
                let num = reads_as_number(v);
                cfg = set_nested_value(name, v, num, cfg);
            }
            None => {}
        }
        i = i + 1;
    }
    proof { assert(vs.take(n as int) =~= vs); }
    cfg
}

/// The templates by id, and where they are saved.
pub struct TemplateManager {
    templates_dir: String,
    templates: Store<PluginTemplate>,
}

impl TemplateManager {
    /// The templates by id.
    pub closed spec fn by_id(&self) -> Map<Seq<char>, TemplateView> {
        self.templates.map().map_values(|t: PluginTemplate| t@)
    }

    /// The templates, in the order they are examined.
    pub closed spec fn list(&self) -> Seq<TemplateView> {
        views(self.templates.items())
    }

    /// The directory the templates are saved in.
    pub closed spec fn dir(&self) -> Seq<char> {
        self.templates_dir@
    }

    /// No templates, saved in `templates_dir`.
    pub fn new(templates_dir: String) -> (m: TemplateManager)
        ensures
            m.by_id() == Map::<Seq<char>, TemplateView>::empty(),
            m.list() == Seq::<TemplateView>::empty(),
            m.dir() == templates_dir@,
    {
        let m = TemplateManager { templates_dir, templates: Store::new() };
        assert(m.by_id() =~= Map::<Seq<char>, TemplateView>::empty());
        assert(m.list() =~= Seq::<TemplateView>::empty());
        m
    }

    /// The directory the templates are saved in.
    pub fn templates_dir(&self) -> (d: &str)
        ensures
            d@ == self.dir(),
    {
        self.templates_dir.as_str()
    }

    /// The built-in EssentialsX template, under a fresh id, made at `now`.
    pub fn create_essentials_template(&self, now: u64) -> (r: Result<PluginTemplate, String>)
        ensures
            r matches Ok(t) && is_hyphenated_uuid(t@.id) && t@ == essentials_template(t@.id, now),
    {
        let locales = vec![owned("en"), owned("zh_CN"), owned("zh_TW")];
        let ghost lv = strings_view(locales@);
        let v1 = make_variable("locale", "string", "en", "Language locale", false, Some(locales));
        let v2 = make_variable("debug", "boolean", "false", "Enable debug mode", false, None);
        let variables = vec![v1, v2];
        let t = PluginTemplate {
            id: new_uuid_string(),
            name: owned("EssentialsX Configuration"),
            plugin_name: owned("EssentialsX"),
            version: owned("2.x"),
            template_name: owned("default"),
            config_template: owned("{\" Essentials\":{\"debug\":false,\"enabled\":true,\"locale\":\"en\"},\"allow-duplicate-names\":false,\"allow-italic\":false,\"change-player-name\":false,\"force-color-codes\":false,\"max-player-name-length\":16,\"nickname-length\":16,\"socialspy\":{\"enabled\":false,\"socialSpyCosts\":100.0},\"use-color-codes\":false,\"zero-session-size\":\"kick\"}"),
            variables,
            description: owned("Standard EssentialsX configuration with common settings"),
            created_at: now,
            usage_count: 0,
        };
        assert(lv =~= seq!["en"@, "zh_CN"@, "zh_TW"@]);
        assert(views(t.variables@) =~= seq![
            variable("locale"@, "string"@, "en"@, "Language locale"@, false, Some(seq!["en"@, "zh_CN"@, "zh_TW"@])),
            variable("debug"@, "boolean"@, "false"@, "Enable debug mode"@, false, None),
        ]);
        assert(t@ =~= essentials_template(t@.id, now));
        Ok(t)
    }

    /// The built-in LuckPerms template, under a fresh id, made at `now`.
    pub fn create_permissions_template(&self, now: u64) -> (r: Result<PluginTemplate, String>)
        ensures
            r matches Ok(t) && is_hyphenated_uuid(t@.id) && t@ == permissions_template(t@.id, now),
    {
        let stores = vec![owned("sqlite"), owned("mysql"), owned("mariadb"), owned("postgresql"), owned("h2")];
        let ghost sv = strings_view(stores@);
        let v1 = make_variable("storage_type", "select", "sqlite", "Database type for storing permissions", true, Some(stores));
        let variables = vec![v1];
        let t = PluginTemplate {
            id: new_uuid_string(),
            name: owned("LuckPerms Basic Setup"),
            plugin_name: owned("LuckPerms"),
            version: owned("5.x"),
            template_name: owned("basic-setup"),
            config_template: owned("{\"broadcast\":{\"permission-not-found\":false},\"cache\":{\"expiry\":300},\"priorities\":{\"inheritance\":true,\"weight\":true},\"storage\":{\"dataSourceProperties\":{},\"type\":\"sqlite\"},\"sync\":{\"delay\":60,\"enabled\":true},\"workarounds\":{\"enabled\":true}}"),
            variables,
            description: owned("Basic LuckPerms setup with SQLite storage"),
            created_at: now,
            usage_count: 0,
        };
        assert(sv =~= seq!["sqlite"@, "mysql"@, "mariadb"@, "postgresql"@, "h2"@]);
        assert(views(t.variables@) =~= seq![
            variable("storage_type"@, "select"@, "sqlite"@, "Database type for storing permissions"@, true,
                Some(seq!["sqlite"@, "mysql"@, "mariadb"@, "postgresql"@, "h2"@])),
        ]);
        assert(t@ =~= permissions_template(t@.id, now));
        Ok(t)
    }

    /// The built-in WorldEdit template, under a fresh id, made at `now`.
    pub fn create_worldedit_template(&self, now: u64) -> (r: Result<PluginTemplate, String>)
        ensures
            r matches Ok(t) && is_hyphenated_uuid(t@.id) && t@ == worldedit_template(t@.id, now),
    {
        let t = PluginTemplate {
            id: new_uuid_string(),
            name: owned("WorldEdit Performance"),
            plugin_name: owned("WorldEdit"),
            version: owned("7.x"),
            template_name: owned("performance"),
            config_template: owned("{\"clipboard\":{\"compression-level\":7,\"use-disk\":false},\"history\":{\"disk-size\":100,\"size\":25},\"logging\":{\"log-commands\":false,\"log-durations\":true,\"record-history\":true},\"region-selection\":{\"allow-cuboid-mode\":true,\"allow-glob-selection\":true,\"max-block-count\":-1,\"max-brush-radius\":20,\"max-poly-size\":30000}}"),
            variables: Vec::new(),
            description: owned("Optimized WorldEdit configuration for better performance"),
            created_at: now,
            usage_count: 0,
        };
        assert(views(t.variables@) =~= Seq::<TemplateVariableView>::empty());
        assert(t@ =~= worldedit_template(t@.id, now));
        Ok(t)
    }

    /// Records `t` under its id (the caller has saved it).
    pub fn insert_template(&mut self, t: PluginTemplate)
        ensures
            final(self).by_id() == old(self).by_id().insert(t@.id, t@),
            final(self).dir() == old(self).dir(),
    {
        let ghost tv = t@;
        self.templates.upsert(t);
        assert(self.by_id() =~= old(self).by_id().insert(tv.id, tv));
    }

    /// Records the three built-in templates made at `now` when there are no
    /// templates yet; returns copies of what was added, for saving.
    pub fn create_default_templates_at(&mut self, now: u64) -> (r: Vec<PluginTemplate>)
        ensures
            old(self).by_id().len() > 0 ==> r@.len() == 0 && final(self).by_id() == old(self).by_id(),
            old(self).by_id().len() == 0 ==> r@.len() == 3
                && r@[0]@ == essentials_template(r@[0]@.id, now)
                && r@[1]@ == permissions_template(r@[1]@.id, now)
                && r@[2]@ == worldedit_template(r@[2]@.id, now)
                && final(self).by_id() == old(self).by_id().insert(r@[0]@.id, r@[0]@).insert(r@[1]@.id, r@[1]@).insert(r@[2]@.id, r@[2]@),
            final(self).dir() == old(self).dir(),
    {
        self.templates.facts();
        assert(self.by_id().dom() =~= self.templates.map().dom());
        if self.templates.len() > 0 {
            assert(old(self).by_id().dom().len() > 0);
            return Vec::new();
        }
        assert(old(self).by_id().dom().len() == 0);
        let mut r: Vec<PluginTemplate> = Vec::new();
        let e = match self.create_essentials_template(now) { Ok(t) => t, Err(_) => return r };
        let p = match self.create_permissions_template(now) { Ok(t) => t, Err(_) => return r };
        let w = match self.create_worldedit_template(now) { Ok(t) => t, Err(_) => return r };
        r.push(e.dup());
        r.push(p.dup());
        r.push(w.dup());
        self.insert_template(e);
        self.insert_template(p);
        self.insert_template(w);
        r
    }

    /// Makes a template from the given parts under a fresh id, created at
    /// `now` with template name "custom", records it and returns a copy.
    pub fn create_template_at(&mut self, name: String, plugin_name: String, version: String, config: String,
        variables: Vec<TemplateVariable>, description: String, now: u64) -> (r: Result<PluginTemplate, String>)
        ensures
            r matches Ok(t) && is_hyphenated_uuid(t@.id)
                && t@ == template(t@.id, name@, plugin_name@, version@, "custom"@, config@, views(variables@), description@, now)
                && final(self).by_id() == old(self).by_id().insert(t@.id, t@),
            final(self).dir() == old(self).dir(),
    {
        let t = PluginTemplate {
            id: new_uuid_string(),
            name,
            plugin_name,
            version,
            template_name: owned("custom"),
            config_template: config,
            variables,
            description,
            created_at: now,
            usage_count: 0,
        };
        let copy = t.dup();
        self.insert_template(t);
        Ok(copy)
    }

    /// Makes a template now (see `create_template_at`).
    pub fn create_template(&mut self, name: String, plugin_name: String, version: String, config: String,
        variables: Vec<TemplateVariable>, description: String) -> (r: Result<PluginTemplate, String>)
        ensures
            r matches Ok(t) && is_hyphenated_uuid(t@.id) && t@.name == name@ && t@.plugin_name == plugin_name@
                && t@.config_template == config@ && t@.usage_count == 0
                && final(self).by_id() == old(self).by_id().insert(t@.id, t@),
    {
        let now = now_millis_unsigned();
        self.create_template_at(name, plugin_name, version, config, variables, description, now)
    }

    /// Copies of the templates for plugin `plugin_name` (compared without
    /// regard to case), or of all templates, in order.
    pub fn get_templates(&self, plugin_name: Option<&str>) -> (r: Vec<PluginTemplate>)
        ensures
            views(r@) == match plugin_name {
                Some(n) => templates_for(self.list(), n@),
                None => self.list(),
            },
    {
        let items = self.templates.as_vec();
        let ghost s = self.list();
        match plugin_name {
            None => {
                let r = dup_vec(items);
                r
            }
            Some(name) => {
                let wanted = to_lowercase(name);
                let n = items.len();
                let mut r: Vec<PluginTemplate> = Vec::new();
                let mut i: usize = 0;
                while i < n
                    invariant
                        n == items@.len(),
                        views(items@) == s,
                        wanted@ == lowercase(name@),
                        i <= n,
                        views(r@) == templates_for(s.take(i as int), name@),
                    decreases n - i,
                {
                    proof {
                        assert(s.take(i + 1).drop_last() =~= s.take(i as int));
                        assert(s.take(i + 1).last() == items@[i as int]@);
                    }
                    let lower = to_lowercase(items[i].plugin_name.as_str());
                    if str_eq(lower.as_str(), wanted.as_str()) {
                        let ghost before = views(r@);
                        r.push(items[i].dup());
                        assert(views(r@) =~= before.push(items@[i as int]@));
                    }
                    i = i + 1;
                }
                proof { assert(s.take(n as int) =~= s); }
                r
            }
        }
    }

    /// A copy of template `template_id`, if any.
    pub fn get_template(&self, template_id: &str) -> (r: Option<PluginTemplate>)
        ensures
            match r {
                Some(t) => self.by_id().dom().contains(template_id@) && t@ == self.by_id()[template_id@],
                None => !self.by_id().dom().contains(template_id@),
            },
    {
        match self.templates.get(template_id) {
            Some(t) => Some(t.dup()),
            None => None,
        }
    }

    /// The configuration of template `template_id` with the values `vals`
    /// of its variables filled in (see `applied`): "Template not found" for
    /// an unknown id, or the message of the error its configuration text
    /// gives when read as JSON.
    pub fn apply_template(&self, template_id: &str, vals: &Vec<(String, String)>) -> (r: Result<JsonValue, String>)
        ensures
            !self.by_id().dom().contains(template_id@) ==> (r matches Err(e) && e@ == "Template not found"@),
            self.by_id().dom().contains(template_id@) ==> match json_parsed(self.by_id()[template_id@].config_template) {
                Ok(c) => r matches Ok(v) && v@ == applied(c, self.by_id()[template_id@].variables, vals@),
                Err(m) => r matches Err(e) && e@ == m,
            },
    {
        let t = match self.templates.get(template_id) {
            Some(t) => t,
            None => return Err(owned("Template not found")),
        };
        assert(t@ == self.by_id()[template_id@]);
        match parse_json(t.config_template.as_str()) {
            Ok(config) => {
                let r = fill_variables(config, &t.variables, vals);
                Ok(r)
            }
            Err(e) => Err(e),
        }
    }

    /// Forgets template `template_id`; returns whether it was there (its
    /// file is then the caller's to remove).
    pub fn delete_template(&mut self, template_id: &str) -> (removed: bool)
        ensures
            removed == old(self).by_id().dom().contains(template_id@),
            final(self).by_id() == old(self).by_id().remove(template_id@),
            final(self).dir() == old(self).dir(),
    {
        let r = self.templates.remove(template_id);
        assert(self.by_id() =~= old(self).by_id().remove(template_id@));
        r.is_some()
    }

    /// Counts one more use of template `template_id`; returns a copy of the
    /// updated template (for saving), or nothing for an unknown id.
    pub fn increment_usage(&mut self, template_id: &str) -> (r: Option<PluginTemplate>)
        requires
            old(self).by_id().dom().contains(template_id@) ==> old(self).by_id()[template_id@].usage_count < i64::MAX,
        ensures
            match r {
                Some(t) => old(self).by_id().dom().contains(template_id@)
                    && t@ == (TemplateView { usage_count: (old(self).by_id()[template_id@].usage_count + 1) as i64, ..old(self).by_id()[template_id@] })
                    && final(self).by_id() == old(self).by_id().insert(template_id@, t@),
                None => !old(self).by_id().dom().contains(template_id@) && final(self).by_id() == old(self).by_id(),
            },
            final(self).dir() == old(self).dir(),
    {
        proof { lemma_store_keys(self.templates); }
        let mut t = match self.templates.get(template_id) {
            Some(x) => x.dup(),
            None => return None,
        };
        t.usage_count = t.usage_count + 1;
        let copy = t.dup();
        self.insert_template(t);
        Some(copy)
    }

    /// Copies of the `limit` most used templates, most used first.
    pub fn get_popular_templates(&self, limit: usize) -> (r: Vec<PluginTemplate>)
        ensures
            views(r@) == sort_desc(self.list()).take(if limit < self.list().len() { limit as int } else { self.list().len() as int }),
    {
        let items = self.templates.as_vec();
        let ghost s = self.list();
        let n = items.len();
        let mut sorted: Vec<PluginTemplate> = Vec::new();
        let mut i: usize = 0;
        while i < n
            invariant
                n == items@.len(),
                views(items@) == s,
                i <= n,
                views(sorted@) == sort_desc(s.take(i as int)),
            decreases n - i,
        {
            let x = items[i].dup();
            let m = sorted.len();
            let mut p: usize = 0;
            while p < m && sorted[p].usage_count >= x.usage_count
                invariant
                    m == sorted@.len(),
                    p <= m,
                    forall|k: int| 0 <= k < p ==> #[trigger] views(sorted@)[k].rank() >= x@.rank(),
                decreases m - p,
            {
                p = p + 1;
            }
            let ghost before = views(sorted@);
            let ghost xv = x@;
            proof {
                lemma_desc_pos(before, xv, p as int);
                assert(s.take(i + 1).drop_last() =~= s.take(i as int));
                assert(s.take(i + 1).last() == xv);
            }
            sorted.insert(p, x);
            assert(views(sorted@) =~= before.insert(p as int, xv));
            i = i + 1;
        }
        proof {
            assert(s.take(n as int) =~= s);
            lemma_sort_desc(s);
        }
        let k = if limit < n { limit } else { n };
        sorted.truncate(k);
        assert(views(sorted@) =~= sort_desc(s).take(k as int));
        sorted
    }
}

// ---------------------------------------------------------------------------
// Laws
// ---------------------------------------------------------------------------

/// The most used templates come most used first, and none left out is used
/// more than one listed.
pub proof fn law_popular_first(s: Seq<TemplateView>, k: nat)
    requires
        k <= s.len(),
    ensures
        sorted_desc(sort_desc(s).take(k as int)),
        forall|i: int, j: int| 0 <= i < k <= j < s.len() ==> #[trigger] sort_desc(s)[i].usage_count >= #[trigger] sort_desc(s)[j].usage_count,
{
    lemma_sort_desc(s);
    let t = sort_desc(s);
    assert forall|i: int, j: int| 0 <= i < j < t.take(k as int).len() implies #[trigger] t.take(k as int)[i].rank() >= #[trigger] t.take(k as int)[j].rank() by {
        assert(t[i].rank() >= t[j].rank());
    }
    assert forall|i: int, j: int| 0 <= i < k <= j < s.len() implies #[trigger] t[i].usage_count >= #[trigger] t[j].usage_count by {
        assert(t[i].rank() >= t[j].rank());
    }
}

} // verus!
