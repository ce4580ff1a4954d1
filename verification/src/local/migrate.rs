//! Moving deprecated settings of a configuration file to the policies that replace them.

use std::sync::Arc;

use vstd::prelude::*;
use vstd::string::*;

use crate::json::Json;
use crate::keyed::StringMap;
use crate::local::config::{DeprecatedLogging, DeprecatedTracing};
use crate::local::error::{ConfigError, Loaded};
use crate::local::frontend::has_deprecated_frontend_log_fields;
use crate::text::{same_text, Text};
use crate::types::policy::first_of;

verus! {

/// The fields of a document.
pub type Fields = Map<Text, Arc<Json>>;

/// The fields of a field of a document that is an object.
pub open spec fn object_at(fields: Fields, key: Text) -> Option<Fields> {
    if fields.contains_key(key) && *fields[key] is Object {
        Some(fields[key].fields())
    } else {
        None
    }
}

/// Whether no object that the migration looks at holds a field twice.
pub open spec fn sound(cfg: Json) -> bool {
    &&& cfg.wf()
    &&& cfg.fields().contains_key("config"@) ==> cfg.fields()["config"@].wf() && (
    cfg.fields()["config"@].fields().contains_key("logging"@) ==> cfg.fields()[
        "config"@].fields()["logging"@].wf())
    &&& cfg.fields().contains_key("frontendPolicies"@) ==> cfg.fields()["frontendPolicies"@].wf()
}

/// The settings of the gateway in a document, if some of them may be deprecated.
pub open spec fn deprecated_settings(cfg: Json) -> Option<Fields> {
    match object_at(cfg.fields(), "config"@) {
        Some(c) => if c.contains_key("logging"@) || c.contains_key("tracing"@) {
            Some(c)
        } else {
            None
        },
        None => None,
    }
}

proof fn lemma_keys_differ()
    ensures
        "config"@ != "frontendPolicies"@,
        "logging"@ != "tracing"@,
        "filter"@ != "fields"@,
        "accessLog"@ != "logging"@,
        "accessLog"@ != "tracing"@,
{
    reveal_strlit("config");
    reveal_strlit("frontendPolicies");
    reveal_strlit("logging");
    reveal_strlit("tracing");
    reveal_strlit("filter");
    reveal_strlit("fields");
    reveal_strlit("accessLog");
    assert("config"@.len() == 6 && "frontendPolicies"@.len() == 16);
    assert("logging"@[0] == 'l' && "tracing"@[0] == 't');
    assert("filter"@[2] == 'l' && "fields"@[2] == 'e');
    assert("accessLog"@.len() == 9 && "logging"@.len() == 7 && "tracing"@.len() == 7);
}

fn get_object<'a>(fields: &'a StringMap<Arc<Json>>, key: &str) -> (r: Option<
    &'a StringMap<Arc<Json>>,
>)
    requires
        fields.wf(),
    ensures
        match r {
            Some(o) => fields@.contains_key(key@) && *fields@[key@] == Json::Object(*o)
                && object_at(fields@, key@) == Some(o@),
            None => object_at(fields@, key@) is None,
        },
{
    match fields.get(key) {
        Some(v) => v.as_object(),
        None => None,
    }
}

/// A document with no more than the settings that may be deprecated: what is to be read of them.
/// Nothing if there are none.
pub fn deprecated_document(cfg: &Json) -> (r: Option<Json>)
    requires
        sound(*cfg),
    ensures
        match deprecated_settings(*cfg) {
            Some(c) => {
                &&& r is Some
                &&& r->0.fields().dom() == set!["config"@]
                &&& object_at(r->0.fields(), "config"@) == Some(
                    c.restrict(set!["logging"@, "tracing"@]),
                )
            },
            None => r is None,
        },
{
    let root = match cfg.as_object() {
        Some(o) => o,
        None => {
            return None;
        },
    };
    let config = match get_object(root, "config") {
        Some(o) => o,
        None => {
            return None;
        },
    };
    proof {
        lemma_keys_differ();
    }
    let mut settings: StringMap<Arc<Json>> = StringMap::new();
    match config.get("logging") {
        Some(v) => {
            settings.insert("logging".to_owned(), v.clone());
        },
        None => {},
    }
    match config.get("tracing") {
        Some(v) => {
            settings.insert("tracing".to_owned(), v.clone());
        },
        None => {},
    }
    assert(settings@ =~= config@.restrict(set!["logging"@, "tracing"@]));
    if settings.is_empty() {
        proof {
            assert(!settings@.contains_key("logging"@));
            assert(!settings@.contains_key("tracing"@));
        }
        return None;
    }
    proof {
        if !config@.contains_key("logging"@) && !config@.contains_key("tracing"@) {
            assert(settings@ =~= Map::<Text, Arc<Json>>::empty());
        }
    }
    let mut document: StringMap<Arc<Json>> = StringMap::new();
    document.insert("config".to_owned(), Arc::new(Json::Object(settings)));
    assert(document@.dom() =~= set!["config"@]);
    Some(Json::Object(document))
}

/// The policies of accepted connections after a migration.
pub open spec fn migrated_policies(
    policies: Fields,
    access_log: Option<Arc<Json>>,
    tracing: Option<Arc<Json>>,
) -> Fields {
    let logged = match access_log {
        Some(a) => policies.insert("accessLog"@, a).remove("logging"@),
        None => policies,
    };
    match tracing {
        Some(t) => logged.insert("tracing"@, t),
        None => logged,
    }
}

/// Whether settings are the given ones without those that became policies: the filter and the
/// fields of the log where `log` is set, and tracing where `tracing` is set. A log without settings
/// is dropped.
pub open spec fn migrated_settings(given: Fields, log: bool, tracing: bool, r: Fields) -> bool {
    &&& forall|k: Text|
        k != "logging"@ && k != "tracing"@ ==> (#[trigger] r.contains_key(k)
            == given.contains_key(k) && (r.contains_key(k) ==> r[k] == given[k]))
    &&& if tracing {
        !r.contains_key("tracing"@)
    } else {
        r.contains_key("tracing"@) == given.contains_key("tracing"@) && (r.contains_key(
            "tracing"@,
        ) ==> r["tracing"@] == given["tracing"@])
    }
    &&& if log {
        match object_at(given, "logging"@) {
            Some(l) => {
                let kept = l.remove("filter"@).remove("fields"@);
                if kept == Map::<Text, Arc<Json>>::empty() {
                    !r.contains_key("logging"@)
                } else {
                    object_at(r, "logging"@) == Some(kept)
                }
            },
            None => !r.contains_key("logging"@),
        }
    } else {
        r.contains_key("logging"@) == given.contains_key("logging"@) && (r.contains_key(
            "logging"@,
        ) ==> r["logging"@] == given["logging"@])
    }
}

fn migrate_settings(config: &StringMap<Arc<Json>>, log: bool, tracing: bool) -> (r: StringMap<
    Arc<Json>,
>)
    requires
        config.wf(),
        config@.contains_key("logging"@) ==> config@["logging"@].wf(),
    ensures
        r.wf(),
        migrated_settings(config@, log, tracing, r@),
{
    proof {
        lemma_keys_differ();
    }
    let mut out = config.share();
    if log {
        match get_object(config, "logging") {
            Some(l) => {
                let mut kept = l.share();
                kept.remove("filter");
                kept.remove("fields");
                if kept.is_empty() {
                    out.remove("logging");
                } else {
                    out.insert("logging".to_owned(), Arc::new(Json::Object(kept)));
                }
            },
            None => {
                out.remove("logging");
            },
        }
    }
    if tracing {
        out.remove("tracing");
    }
    out
}

/// Why a migration is refused, if it is. `access_log` and `tracing` are the policies in place of
/// the deprecated settings as JSON, if there are any, or why they have no JSON form.
pub open spec fn migration_refusal(
    cfg: Json,
    log: bool,
    has_tracing: bool,
    access_log: Option<Loaded<Json>>,
    tracing: Option<Loaded<Json>>,
) -> Option<Text> {
    first_of(
        if cfg.fields().contains_key("frontendPolicies"@) && object_at(
            cfg.fields(),
            "frontendPolicies"@,
        ) is None {
            Some("frontendPolicies must be an object"@)
        } else {
            None
        },
        first_of(
            if log {
                match access_log {
                    None => Some("internal error: migrated accessLog was not generated"@),
                    Some(Err(e)) => Some(e@),
                    Some(Ok(_)) => None,
                }
            } else {
                None
            },
            match tracing {
                Some(Err(e)) => if has_tracing {
                    Some(e@)
                } else {
                    None
                },
                _ => None,
            },
        ),
    )
}

/// A policy that takes the place of deprecated settings, if there are any.
pub open spec fn replacement(set: bool, policy: Option<Loaded<Json>>) -> Option<Arc<Json>> {
    match policy {
        Some(Ok(p)) => if set {
            Some(p)
        } else {
            None
        },
        _ => None,
    }
}

/// Whether a document is the given one with its deprecated settings moved to policies.
pub open spec fn migrated(
    cfg: Json,
    log: bool,
    has_tracing: bool,
    access_log: Option<Loaded<Json>>,
    tracing: Option<Loaded<Json>>,
    r: Json,
) -> bool {
    &&& forall|k: Text|
        k != "config"@ && k != "frontendPolicies"@ ==> (#[trigger] r.fields().contains_key(k)
            == cfg.fields().contains_key(k) && (r.fields().contains_key(k) ==> r.fields()[k]
            == cfg.fields()[k]))
    &&& object_at(r.fields(), "frontendPolicies"@) == Some(
        migrated_policies(
            match object_at(cfg.fields(), "frontendPolicies"@) {
                Some(p) => p,
                None => Map::empty(),
            },
            replacement(log, access_log),
            replacement(has_tracing, tracing),
        ),
    )
    &&& object_at(r.fields(), "config"@) is Some
    &&& migrated_settings(
        object_at(cfg.fields(), "config"@)->0,
        log,
        has_tracing,
        object_at(r.fields(), "config"@)->0,
    )
}

/// Moves deprecated settings of a document to the policies that replace them. `logging` and
/// `deprecated_tracing` are the settings as they were read; `access_log` and `tracing` are the
/// policies in their place as JSON, if there are any, or why they have no JSON form. A document
/// without such settings stays as it is.
pub fn migrate_deprecated_frontend_policies(
    cfg: Json,
    logging: &DeprecatedLogging,
    deprecated_tracing: &Option<DeprecatedTracing>,
    access_log: Option<Loaded<Json>>,
    tracing: Option<Loaded<Json>>,
) -> (r: Result<Json, ConfigError>)
    requires
        sound(cfg),
    ensures
        ({
            let log = logging.is_set();
            let has_tracing = deprecated_tracing is Some;
            if deprecated_settings(cfg) is None {
                r == Ok::<Json, ConfigError>(cfg)
            } else {
                match r {
                    Ok(j) => {
                        &&& migration_refusal(cfg, log, has_tracing, access_log, tracing) is None
                        &&& migrated(cfg, log, has_tracing, access_log, tracing, j)
                    },
                    Err(e) => migration_refusal(cfg, log, has_tracing, access_log, tracing) == Some(
                        e@,
                    ),
                }
            }
        }),
{
    proof {
        lemma_keys_differ();
    }
    let ghost given = cfg;
    let mut root = match cfg {
        Json::Object(root) => root,
        other => {
            return Ok(other);
        },
    };
    let log = has_deprecated_frontend_log_fields(logging);
    let has_tracing = deprecated_tracing.is_some();
    let settings = match get_object(&root, "config") {
        Some(config) => {
            if !config.contains_key("logging") && !config.contains_key("tracing") {
                None
            } else {
                Some(migrate_settings(config, log, has_tracing))
            }
        },
        None => None,
    };
    let settings = match settings {
        Some(s) => s,
        None => {
            return Ok(Json::Object(root));
        },
    };
    let mut policies: StringMap<Arc<Json>> = match get_object(&root, "frontendPolicies") {
        Some(p) => p.share(),
        None => {
            if root.contains_key("frontendPolicies") {
                return Err(ConfigError::new("frontendPolicies must be an object"));
            }
            StringMap::new()
        },
    };
    if log {
        match access_log {
            Some(Ok(a)) => {
                policies.insert("accessLog".to_owned(), a);
                policies.remove("logging");
            },
            Some(Err(e)) => {
                return Err(ConfigError::of(e));
            },
            None => {
                return Err(
                    ConfigError::new("internal error: migrated accessLog was not generated"),
                );
            },
        }
    }
    if has_tracing {
        match tracing {
            Some(Ok(t)) => {
                policies.insert("tracing".to_owned(), t);
            },
            Some(Err(e)) => {
                return Err(ConfigError::of(e));
            },
            None => {},
        }
    }
    root.insert("frontendPolicies".to_owned(), Arc::new(Json::Object(policies)));
    root.insert("config".to_owned(), Arc::new(Json::Object(settings)));
    Ok(Json::Object(root))
}

/// A migration leaves nothing of what it moves: neither the filter nor the fields of the log, nor
/// tracing.
pub proof fn nothing_deprecated_is_left(
    cfg: Json,
    log: bool,
    has_tracing: bool,
    access_log: Option<Loaded<Json>>,
    tracing: Option<Loaded<Json>>,
    r: Json,
)
    requires
        migrated(cfg, log, has_tracing, access_log, tracing, r),
    ensures
        ({
            let settings = object_at(r.fields(), "config"@)->0;
            &&& has_tracing ==> !settings.contains_key("tracing"@)
            &&& log && settings.contains_key("logging"@) ==> {
                &&& object_at(settings, "logging"@) is Some
                &&& !object_at(settings, "logging"@)->0.contains_key("filter"@)
                &&& !object_at(settings, "logging"@)->0.contains_key("fields"@)
            }
        }),
{
}

/// What a migration moves stands among the policies afterwards.
pub proof fn moved_settings_are_policies(
    cfg: Json,
    log: bool,
    has_tracing: bool,
    access_log: Arc<Json>,
    tracing: Arc<Json>,
    r: Json,
)
    requires
        migrated(cfg, log, has_tracing, Some(Ok(access_log)), Some(Ok(tracing)), r),
    ensures
        ({
            let policies = object_at(r.fields(), "frontendPolicies"@)->0;
            &&& log ==> policies.contains_key("accessLog"@) && policies["accessLog"@]
                == access_log && !policies.contains_key("logging"@)
            &&& has_tracing ==> policies.contains_key("tracing"@) && policies["tracing"@] == tracing
        }),
{
    lemma_keys_differ();
}

// ---------------------------------------------------------------------------------------------
// The text of a configuration
// ---------------------------------------------------------------------------------------------

/// Whether `part` stands at a place of a text.
pub open spec fn stands_at(text: Text, part: Text, i: int) -> bool {
    0 <= i && i + part.len() <= text.len() && text.subrange(i, i + part.len()) == part
}

/// The rest of a text from a place on, with every occurrence of `part` replaced by `by`, from left
/// to right.
pub open spec fn replaced_from(text: Text, part: Text, by: Text, i: int) -> Text
    decreases text.len() - i,
{
    if part.len() == 0 || i < 0 || i >= text.len() {
        Seq::empty()
    } else if stands_at(text, part, i) {
        by + replaced_from(text, part, by, i + part.len())
    } else {
        seq![text[i]] + replaced_from(text, part, by, i + 1)
    }
}

/// The text with the comment taken out that names the schema of the file for editors. It holds a
/// `$`, which would otherwise be taken for a variable.
pub fn without_schema_comment(text: &str) -> (r: String)
    ensures
        r@ == replaced_from(text@, "# yaml-language-server: $schema"@, "#"@, 0),
{
    let part = "# yaml-language-server: $schema";
    proof {
        reveal_strlit("# yaml-language-server: $schema");
        assert(part@.len() > 0);
    }
    let n: usize = text.unicode_len();
    let width: usize = part.unicode_len();
    let mut out = String::new();
    let mut i: usize = 0;
    let ghost whole = replaced_from(text@, part@, "#"@, 0);
    assert(out@ + whole =~= whole);
    while i < n
        invariant
            n == text@.len(),
            width == part@.len(),
            part@ == "# yaml-language-server: $schema"@,
            width > 0,
            i <= n,
            out@ + replaced_from(text@, part@, "#"@, i as int) == whole,
        decreases n - i,
    {
        let ghost held = out@;
        let ghost rest = replaced_from(text@, part@, "#"@, i as int);
        if n - i >= width && same_text(text.substring_char(i, i + width), part) {
            out.append("#");
            proof {
                assert(stands_at(text@, part@, i as int));
                let after = replaced_from(text@, part@, "#"@, i + width);
                assert(rest == "#"@ + after);
                assert(held + ("#"@ + after) =~= (held + "#"@) + after);
            }
            i = i + width;
        } else {
            out.append(text.substring_char(i, i + 1));
            proof {
                assert(!stands_at(text@, part@, i as int));
                let after = replaced_from(text@, part@, "#"@, i + 1);
                assert(text@.subrange(i as int, i + 1) =~= seq![text@[i as int]]);
                assert(held + (seq![text@[i as int]] + after) =~= (held + seq![text@[i as int]])
                    + after);
            }
            i = i + 1;
        }
    }
    assert(out@ + replaced_from(text@, part@, "#"@, n as int) =~= out@);
    out
}

} // verus!
