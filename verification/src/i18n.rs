//! Interface languages and translations, and the language preference.
use vstd::prelude::*;
use crate::text::{chars_of, has_prefix, has_prefix_of, lowercase, same_text, to_lowercase_of};

verus! {

broadcast use vstd::string::group_string_axioms;

/// Interface language.
#[derive(Debug, Clone, Copy, PartialEq, Eq, Structural)]
pub enum AppLanguage {
    Fr,
    Uk,
}

/// The French or the English text, by language.
pub open spec fn in_language(lang: AppLanguage, fr: Seq<char>, uk: Seq<char>) -> Seq<char> {
    match lang {
        AppLanguage::Fr => fr,
        AppLanguage::Uk => uk,
    }
}

/// The interface text of `key` in `lang`; the key itself when it has no translation.
pub open spec fn translation(lang: AppLanguage, key: Seq<char>) -> Seq<char> {
    if key == "title.app"@ {
        in_language(lang, "GESTIONNAIRE DE DOCUMENTS"@, "DOCUMENT MANAGER"@)
    } else if key == "theme.night"@ {
        in_language(lang, "Nuit"@, "Night"@)
    } else if key == "theme.day"@ {
        in_language(lang, "Jour"@, "Day"@)
    } else if key == "lang.fr"@ {
        in_language(lang, "FR"@, "FR"@)
    } else if key == "lang.uk"@ {
        in_language(lang, "UK"@, "UK"@)
    } else if key == "sidebar.airports"@ {
        in_language(lang, "Aeroports"@, "Airports"@)
    } else if key == "sidebar.workspaces"@ {
        in_language(lang, "Dossiers"@, "Workspaces"@)
    } else if key == "sidebar.settings"@ {
        in_language(lang, "Reglages"@, "Settings"@)
    } else if key == "nav.airports"@ {
        in_language(lang, "AEROPORTS"@, "AIRPORTS"@)
    } else if key == "nav.workspaces"@ {
        in_language(lang, "DOSSIERS"@, "WORKSPACES"@)
    } else if key == "nav.settings"@ {
        in_language(lang, "REGLAGES"@, "SETTINGS"@)
    } else if key == "search.icao"@ {
        in_language(lang, "Code OACI..."@, "ICAO code..."@)
    } else if key == "search.go"@ {
        in_language(lang, "GO"@, "GO"@)
    } else if key == "search.loading"@ {
        in_language(lang, "..."@, "..."@)
    } else if key == "search.charts"@ {
        in_language(lang, "cartes"@, "charts"@)
    } else if key == "workspace.new"@ {
        in_language(lang, "+ Nouveau dossier"@, "+ New workspace"@)
    } else if key == "workspace.name.placeholder"@ {
        in_language(lang, "Nom du dossier..."@, "Workspace name..."@)
    } else if key == "common.ok"@ {
        in_language(lang, "OK"@, "OK"@)
    } else if key == "workspace.none"@ {
        in_language(lang, "Aucun dossier sauvegarde"@, "No saved workspace"@)
    } else if key == "workspace.load"@ {
        in_language(lang, "Charger ce dossier"@, "Load workspace"@)
    } else if key == "workspace.unload"@ {
        in_language(lang, "Decharger"@, "Unload"@)
    } else if key == "workspace.open_all"@ {
        in_language(lang, "Ouvrir tout"@, "Open all"@)
    } else if key == "workspace.rename"@ {
        in_language(lang, "Renommer"@, "Rename"@)
    } else if key == "workspace.remove"@ {
        in_language(lang, "Retirer du dossier"@, "Remove from workspace"@)
    } else if key == "workspace.delete.confirm"@ {
        in_language(lang, "Supprimer ce dossier ?"@, "Delete this workspace?"@)
    } else if key == "common.yes"@ {
        in_language(lang, "Oui"@, "Yes"@)
    } else if key == "common.no"@ {
        in_language(lang, "Non"@, "No"@)
    } else if key == "workspace.empty"@ {
        in_language(lang, "Dossier vide"@, "Empty workspace"@)
    } else if key == "chart.quick_add"@ {
        in_language(lang, "Ajouter au dossier courant"@, "Add to current workspace"@)
    } else if key == "chart.in_workspace"@ {
        in_language(lang, "Deja dans le dossier"@, "Already in workspace"@)
    } else if key == "quickswitch.placeholder"@ {
        in_language(lang, "Rechercher une carte (Ctrl+P)"@, "Search chart (Ctrl+P)"@)
    } else if key == "quickswitch.empty"@ {
        in_language(lang, "Aucun resultat"@, "No result"@)
    } else if key == "notes.title"@ {
        in_language(lang, "Notes"@, "Notes"@)
    } else if key == "notes.placeholder"@ {
        in_language(lang, "Commencez a ecrire vos notes de briefing..."@, "Start writing your briefing notes..."@)
    } else if key == "notes.unpin"@ {
        in_language(lang, "Detacher le panneau"@, "Unpin side panel"@)
    } else if key == "notes.pin"@ {
        in_language(lang, "Epingler en panneau lateral"@, "Pin as side panel"@)
    } else if key == "notes.h1"@ {
        in_language(lang, "Titre 1"@, "Heading 1"@)
    } else if key == "notes.h2"@ {
        in_language(lang, "Titre 2"@, "Heading 2"@)
    } else if key == "notes.h3"@ {
        in_language(lang, "Titre 3"@, "Heading 3"@)
    } else if key == "notes.bold"@ {
        in_language(lang, "Gras"@, "Bold"@)
    } else if key == "notes.italic"@ {
        in_language(lang, "Italique"@, "Italic"@)
    } else if key == "notes.underline"@ {
        in_language(lang, "Souligne"@, "Underline"@)
    } else if key == "notes.strike"@ {
        in_language(lang, "Barre"@, "Strike"@)
    } else if key == "notes.text_color"@ {
        in_language(lang, "Couleur du texte"@, "Text color"@)
    } else if key == "notes.highlight"@ {
        in_language(lang, "Surligner"@, "Highlight"@)
    } else if key == "notes.bullets"@ {
        in_language(lang, "Liste a puces"@, "Bulleted list"@)
    } else if key == "notes.numbered"@ {
        in_language(lang, "Liste numerotee"@, "Numbered list"@)
    } else if key == "notes.quote"@ {
        in_language(lang, "Citation"@, "Quote"@)
    } else if key == "notes.code"@ {
        in_language(lang, "Code"@, "Code"@)
    } else if key == "notes.rule"@ {
        in_language(lang, "Ligne horizontale"@, "Horizontal rule"@)
    } else if key == "notes.paragraph"@ {
        in_language(lang, "Paragraphe normal"@, "Normal paragraph"@)
    } else if key == "notes.none"@ {
        in_language(lang, "Aucun"@, "None"@)
    } else if key == "doc.loading"@ {
        in_language(lang, "Chargement du PDF..."@, "Loading PDF..."@)
    } else if key == "doc.error"@ {
        in_language(lang, "Erreur de chargement"@, "Load error"@)
    } else if key == "empty.start"@ {
        in_language(lang, "Recherchez un aerodrome pour commencer"@, "Search an airport to start"@)
    } else if key == "empty.hint"@ {
        in_language(lang, "Entrez un code OACI (ex: LFPG, EGLL)"@, "Type an ICAO code (e.g. LFPG, EGLL)"@)
    } else if key == "menu.send_to_workspace"@ {
        in_language(lang, "Envoyer vers le dossier"@, "Send to workspace"@)
    } else if key == "menu.display"@ {
        in_language(lang, "Affichage"@, "Display"@)
    } else if key == "menu.current_workspace"@ {
        in_language(lang, "Dossier courant"@, "Current workspace"@)
    } else if key == "menu.none"@ {
        in_language(lang, "Aucun"@, "None"@)
    } else if key == "menu.filter"@ {
        in_language(lang, "Filtrer..."@, "Filter..."@)
    } else if key == "menu.no_workspace"@ {
        in_language(lang, "Aucun dossier"@, "No workspace"@)
    } else if key == "menu.no_result"@ {
        in_language(lang, "Aucun resultat"@, "No result"@)
    } else if key == "menu.popout_new"@ {
        in_language(lang, "Pop vers une nouvelle fenetre"@, "Pop to a new window"@)
    } else if key == "menu.popout_existing"@ {
        in_language(lang, "Pop vers la fenetre #2"@, "Pop to window #2"@)
    } else if key == "status.active"@ {
        in_language(lang, "En vigueur"@, "Active"@)
    } else if key == "status.expired"@ {
        in_language(lang, "Expire"@, "Expired"@)
    } else if key == "status.network"@ {
        in_language(lang, "RESEAU: -"@, "NETWORK: -"@)
    } else if key == "settings.preferences"@ {
        in_language(lang, "Preferences"@, "Preferences"@)
    } else if key == "settings.language"@ {
        in_language(lang, "Langue"@, "Language"@)
    } else if key == "settings.lang.fr"@ {
        in_language(lang, "Francais"@, "French"@)
    } else if key == "settings.lang.uk"@ {
        in_language(lang, "Anglais"@, "English"@)
    } else if key == "settings.theme_mode"@ {
        in_language(lang, "Mode de theme"@, "Theme mode"@)
    } else if key == "settings.theme.light"@ {
        in_language(lang, "Toujours clair"@, "Always light"@)
    } else if key == "settings.theme.dark"@ {
        in_language(lang, "Toujours sombre"@, "Always dark"@)
    } else if key == "settings.theme.auto_time"@ {
        in_language(lang, "Selon l'heure locale"@, "Follow local time"@)
    } else if key == "settings.theme.auto_system"@ {
        in_language(lang, "Selon le systeme"@, "Follow system setting"@)
    } else {
        key
    }
}

/// The interface text of `key` in `lang`; the key itself when it has no translation.
pub fn tr(lang: AppLanguage, key: &'static str) -> (r: &'static str)
    ensures
        r@ == translation(lang, key@),
{
    if same_text(key, "title.app") {
        return match lang {
            AppLanguage::Fr => "GESTIONNAIRE DE DOCUMENTS",
            AppLanguage::Uk => "DOCUMENT MANAGER",
        };
    }
    if same_text(key, "theme.night") {
        return match lang {
            AppLanguage::Fr => "Nuit",
            AppLanguage::Uk => "Night",
        };
    }
    if same_text(key, "theme.day") {
        return match lang {
            AppLanguage::Fr => "Jour",
            AppLanguage::Uk => "Day",
        };
    }
    if same_text(key, "lang.fr") {
        return match lang {
            AppLanguage::Fr => "FR",
            AppLanguage::Uk => "FR",
        };
    }
    if same_text(key, "lang.uk") {
        return match lang {
            AppLanguage::Fr => "UK",
            AppLanguage::Uk => "UK",
        };
    }
    if same_text(key, "sidebar.airports") {
        return match lang {
            AppLanguage::Fr => "Aeroports",
            AppLanguage::Uk => "Airports",
        };
    }
    if same_text(key, "sidebar.workspaces") {
        return match lang {
            AppLanguage::Fr => "Dossiers",
            AppLanguage::Uk => "Workspaces",
        };
    }
    if same_text(key, "sidebar.settings") {
        return match lang {
            AppLanguage::Fr => "Reglages",
            AppLanguage::Uk => "Settings",
        };
    }
    if same_text(key, "nav.airports") {
        return match lang {
            AppLanguage::Fr => "AEROPORTS",
            AppLanguage::Uk => "AIRPORTS",
        };
    }
    if same_text(key, "nav.workspaces") {
        return match lang {
            AppLanguage::Fr => "DOSSIERS",
            AppLanguage::Uk => "WORKSPACES",
        };
    }
    if same_text(key, "nav.settings") {
        return match lang {
            AppLanguage::Fr => "REGLAGES",
            AppLanguage::Uk => "SETTINGS",
        };
    }
    if same_text(key, "search.icao") {
        return match lang {
            AppLanguage::Fr => "Code OACI...",
            AppLanguage::Uk => "ICAO code...",
        };
    }
    if same_text(key, "search.go") {
        return match lang {
            AppLanguage::Fr => "GO",
            AppLanguage::Uk => "GO",
        };
    }
    if same_text(key, "search.loading") {
        return match lang {
            AppLanguage::Fr => "...",
            AppLanguage::Uk => "...",
        };
    }
    if same_text(key, "search.charts") {
        return match lang {
            AppLanguage::Fr => "cartes",
            AppLanguage::Uk => "charts",
        };
    }
    if same_text(key, "workspace.new") {
        return match lang {
            AppLanguage::Fr => "+ Nouveau dossier",
            AppLanguage::Uk => "+ New workspace",
        };
    }
    if same_text(key, "workspace.name.placeholder") {
        return match lang {
            AppLanguage::Fr => "Nom du dossier...",
            AppLanguage::Uk => "Workspace name...",
        };
    }
    if same_text(key, "common.ok") {
        return match lang {
            AppLanguage::Fr => "OK",
            AppLanguage::Uk => "OK",
        };
    }
    if same_text(key, "workspace.none") {
        return match lang {
            AppLanguage::Fr => "Aucun dossier sauvegarde",
            AppLanguage::Uk => "No saved workspace",
        };
    }
    if same_text(key, "workspace.load") {
        return match lang {
            AppLanguage::Fr => "Charger ce dossier",
            AppLanguage::Uk => "Load workspace",
        };
    }
    if same_text(key, "workspace.unload") {
        return match lang {
            AppLanguage::Fr => "Decharger",
            AppLanguage::Uk => "Unload",
        };
    }
    if same_text(key, "workspace.open_all") {
        return match lang {
            AppLanguage::Fr => "Ouvrir tout",
            AppLanguage::Uk => "Open all",
        };
    }
    if same_text(key, "workspace.rename") {
        return match lang {
            AppLanguage::Fr => "Renommer",
            AppLanguage::Uk => "Rename",
        };
    }
    if same_text(key, "workspace.remove") {
        return match lang {
            AppLanguage::Fr => "Retirer du dossier",
            AppLanguage::Uk => "Remove from workspace",
        };
    }
    if same_text(key, "workspace.delete.confirm") {
        return match lang {
            AppLanguage::Fr => "Supprimer ce dossier ?",
            AppLanguage::Uk => "Delete this workspace?",
        };
    }
    if same_text(key, "common.yes") {
        return match lang {
            AppLanguage::Fr => "Oui",
            AppLanguage::Uk => "Yes",
        };
    }
    if same_text(key, "common.no") {
        return match lang {
            AppLanguage::Fr => "Non",
            AppLanguage::Uk => "No",
        };
    }
    if same_text(key, "workspace.empty") {
        return match lang {
            AppLanguage::Fr => "Dossier vide",
            AppLanguage::Uk => "Empty workspace",
        };
    }
    if same_text(key, "chart.quick_add") {
        return match lang {
            AppLanguage::Fr => "Ajouter au dossier courant",
            AppLanguage::Uk => "Add to current workspace",
        };
    }
    if same_text(key, "chart.in_workspace") {
        return match lang {
            AppLanguage::Fr => "Deja dans le dossier",
            AppLanguage::Uk => "Already in workspace",
        };
    }
    if same_text(key, "quickswitch.placeholder") {
        return match lang {
            AppLanguage::Fr => "Rechercher une carte (Ctrl+P)",
            AppLanguage::Uk => "Search chart (Ctrl+P)",
        };
    }
    if same_text(key, "quickswitch.empty") {
        return match lang {
            AppLanguage::Fr => "Aucun resultat",
            AppLanguage::Uk => "No result",
        };
    }
    if same_text(key, "notes.title") {
        return match lang {
            AppLanguage::Fr => "Notes",
            AppLanguage::Uk => "Notes",
        };
    }
    if same_text(key, "notes.placeholder") {
        return match lang {
            AppLanguage::Fr => "Commencez a ecrire vos notes de briefing...",
            AppLanguage::Uk => "Start writing your briefing notes...",
        };
    }
    if same_text(key, "notes.unpin") {
        return match lang {
            AppLanguage::Fr => "Detacher le panneau",
            AppLanguage::Uk => "Unpin side panel",
        };
    }
    if same_text(key, "notes.pin") {
        return match lang {
            AppLanguage::Fr => "Epingler en panneau lateral",
            AppLanguage::Uk => "Pin as side panel",
        };
    }
    if same_text(key, "notes.h1") {
        return match lang {
            AppLanguage::Fr => "Titre 1",
            AppLanguage::Uk => "Heading 1",
        };
    }
    if same_text(key, "notes.h2") {
        return match lang {
            AppLanguage::Fr => "Titre 2",
            AppLanguage::Uk => "Heading 2",
        };
    }
    if same_text(key, "notes.h3") {
        return match lang {
            AppLanguage::Fr => "Titre 3",
            AppLanguage::Uk => "Heading 3",
        };
    }
    if same_text(key, "notes.bold") {
        return match lang {
            AppLanguage::Fr => "Gras",
            AppLanguage::Uk => "Bold",
        };
    }
    if same_text(key, "notes.italic") {
        return match lang {
            AppLanguage::Fr => "Italique",
            AppLanguage::Uk => "Italic",
        };
    }
    if same_text(key, "notes.underline") {
        return match lang {
            AppLanguage::Fr => "Souligne",
            AppLanguage::Uk => "Underline",
        };
    }
    if same_text(key, "notes.strike") {
        return match lang {
            AppLanguage::Fr => "Barre",
            AppLanguage::Uk => "Strike",
        };
    }
    if same_text(key, "notes.text_color") {
        return match lang {
            AppLanguage::Fr => "Couleur du texte",
            AppLanguage::Uk => "Text color",
        };
    }
    if same_text(key, "notes.highlight") {
        return match lang {
            AppLanguage::Fr => "Surligner",
            AppLanguage::Uk => "Highlight",
        };
    }
    if same_text(key, "notes.bullets") {
        return match lang {
            AppLanguage::Fr => "Liste a puces",
            AppLanguage::Uk => "Bulleted list",
        };
    }
    if same_text(key, "notes.numbered") {
        return match lang {
            AppLanguage::Fr => "Liste numerotee",
            AppLanguage::Uk => "Numbered list",
        };
    }
    if same_text(key, "notes.quote") {
        return match lang {
            AppLanguage::Fr => "Citation",
            AppLanguage::Uk => "Quote",
        };
    }
    if same_text(key, "notes.code") {
        return match lang {
            AppLanguage::Fr => "Code",
            AppLanguage::Uk => "Code",
        };
    }
    if same_text(key, "notes.rule") {
        return match lang {
            AppLanguage::Fr => "Ligne horizontale",
            AppLanguage::Uk => "Horizontal rule",
        };
    }
    if same_text(key, "notes.paragraph") {
        return match lang {
            AppLanguage::Fr => "Paragraphe normal",
            AppLanguage::Uk => "Normal paragraph",
        };
    }
    if same_text(key, "notes.none") {
        return match lang {
            AppLanguage::Fr => "Aucun",
            AppLanguage::Uk => "None",
        };
    }
    if same_text(key, "doc.loading") {
        return match lang {
            AppLanguage::Fr => "Chargement du PDF...",
            AppLanguage::Uk => "Loading PDF...",
        };
    }
    if same_text(key, "doc.error") {
        return match lang {
            AppLanguage::Fr => "Erreur de chargement",
            AppLanguage::Uk => "Load error",
        };
    }
    if same_text(key, "empty.start") {
        return match lang {
            AppLanguage::Fr => "Recherchez un aerodrome pour commencer",
            AppLanguage::Uk => "Search an airport to start",
        };
    }
    if same_text(key, "empty.hint") {
        return match lang {
            AppLanguage::Fr => "Entrez un code OACI (ex: LFPG, EGLL)",
            AppLanguage::Uk => "Type an ICAO code (e.g. LFPG, EGLL)",
        };
    }
    if same_text(key, "menu.send_to_workspace") {
        return match lang {
            AppLanguage::Fr => "Envoyer vers le dossier",
            AppLanguage::Uk => "Send to workspace",
        };
    }
    if same_text(key, "menu.display") {
        return match lang {
            AppLanguage::Fr => "Affichage",
            AppLanguage::Uk => "Display",
        };
    }
    if same_text(key, "menu.current_workspace") {
        return match lang {
            AppLanguage::Fr => "Dossier courant",
            AppLanguage::Uk => "Current workspace",
        };
    }
    if same_text(key, "menu.none") {
        return match lang {
            AppLanguage::Fr => "Aucun",
            AppLanguage::Uk => "None",
        };
    }
    if same_text(key, "menu.filter") {
        return match lang {
            AppLanguage::Fr => "Filtrer...",
            AppLanguage::Uk => "Filter...",
        };
    }
    if same_text(key, "menu.no_workspace") {
        return match lang {
            AppLanguage::Fr => "Aucun dossier",
            AppLanguage::Uk => "No workspace",
        };
    }
    if same_text(key, "menu.no_result") {
        return match lang {
            AppLanguage::Fr => "Aucun resultat",
            AppLanguage::Uk => "No result",
        };
    }
    if same_text(key, "menu.popout_new") {
        return match lang {
            AppLanguage::Fr => "Pop vers une nouvelle fenetre",
            AppLanguage::Uk => "Pop to a new window",
        };
    }
    if same_text(key, "menu.popout_existing") {
        return match lang {
            AppLanguage::Fr => "Pop vers la fenetre #2",
            AppLanguage::Uk => "Pop to window #2",
        };
    }
    if same_text(key, "status.active") {
        return match lang {
            AppLanguage::Fr => "En vigueur",
            AppLanguage::Uk => "Active",
        };
    }
    if same_text(key, "status.expired") {
        return match lang {
            AppLanguage::Fr => "Expire",
            AppLanguage::Uk => "Expired",
        };
    }
    if same_text(key, "status.network") {
        return match lang {
            AppLanguage::Fr => "RESEAU: -",
            AppLanguage::Uk => "NETWORK: -",
        };
    }
    if same_text(key, "settings.preferences") {
        return match lang {
            AppLanguage::Fr => "Preferences",
            AppLanguage::Uk => "Preferences",
        };
    }
    if same_text(key, "settings.language") {
        return match lang {
            AppLanguage::Fr => "Langue",
            AppLanguage::Uk => "Language",
        };
    }
    if same_text(key, "settings.lang.fr") {
        return match lang {
            AppLanguage::Fr => "Francais",
            AppLanguage::Uk => "French",
        };
    }
    if same_text(key, "settings.lang.uk") {
        return match lang {
            AppLanguage::Fr => "Anglais",
            AppLanguage::Uk => "English",
        };
    }
    if same_text(key, "settings.theme_mode") {
        return match lang {
            AppLanguage::Fr => "Mode de theme",
            AppLanguage::Uk => "Theme mode",
        };
    }
    if same_text(key, "settings.theme.light") {
        return match lang {
            AppLanguage::Fr => "Toujours clair",
            AppLanguage::Uk => "Always light",
        };
    }
    if same_text(key, "settings.theme.dark") {
        return match lang {
            AppLanguage::Fr => "Toujours sombre",
            AppLanguage::Uk => "Always dark",
        };
    }
    if same_text(key, "settings.theme.auto_time") {
        return match lang {
            AppLanguage::Fr => "Selon l'heure locale",
            AppLanguage::Uk => "Follow local time",
        };
    }
    if same_text(key, "settings.theme.auto_system") {
        return match lang {
            AppLanguage::Fr => "Selon le systeme",
            AppLanguage::Uk => "Follow system setting",
        };
    }
    key
}

// ---------------------------------------------------------------- the language preference

/// The language a locale name asks for (`LC_ALL`, else `LANG`): French, the default, when
/// there is no locale name; French when it starts with `fr` in any case; English otherwise.
pub open spec fn language_of_locale(locale: Seq<char>) -> AppLanguage {
    if locale.len() == 0 {
        AppLanguage::Fr
    } else if has_prefix(lowercase(locale), "fr"@) {
        AppLanguage::Fr
    } else {
        AppLanguage::Uk
    }
}

/// The language a locale name asks for.
pub fn detect_language(locale: &str) -> (r: AppLanguage)
    ensures
        r == language_of_locale(locale@),
{
    if chars_of(locale).len() == 0 {
        return AppLanguage::Fr;
    }
    let l = to_lowercase_of(locale);
    if has_prefix_of(&chars_of(l.as_str()), &chars_of("fr")) { AppLanguage::Fr } else { AppLanguage::Uk }
}

/// The interface language of the running application; unset until first read or set.
#[derive(Debug, Clone, Copy, PartialEq, Eq, Structural)]
pub struct LanguageSetting {
    pub lang: Option<AppLanguage>,
}

impl LanguageSetting {
    /// An unset preference.
    pub fn new() -> (r: LanguageSetting)
        ensures
            r.lang is None,
    {
        LanguageSetting { lang: None }
    }
}

/// Reading the language: the language set, else the locale's, which then stays set.
pub open spec fn language_read(s: LanguageSetting, locale: Seq<char>) -> (AppLanguage, LanguageSetting) {
    match s.lang {
        Some(l) => (l, s),
        None => (language_of_locale(locale), LanguageSetting { lang: Some(language_of_locale(locale)) }),
    }
}

/// The preference after the language is set to `l`.
pub open spec fn language_after_set(s: LanguageSetting, l: AppLanguage) -> LanguageSetting {
    LanguageSetting { lang: Some(l) }
}

/// The interface language; when none is set yet, the one the locale `locale` asks for, which
/// then stays set.
pub fn get_language(setting: &mut LanguageSetting, locale: &str) -> (r: AppLanguage)
    ensures
        (r, *final(setting)) == language_read(*old(setting), locale@),
{
    match setting.lang {
        Some(l) => l,
        None => {
            let l = detect_language(locale);
            setting.lang = Some(l);
            l
        },
    }
}

/// Sets the interface language.
pub fn set_language(setting: &mut LanguageSetting, lang: AppLanguage)
    ensures
        *final(setting) == language_after_set(*old(setting), lang),
{
    setting.lang = Some(lang);
}

/// A language that was set is the one read back, whatever the locale.
pub proof fn law_language_read_gives_back_write(s: LanguageSetting, l: AppLanguage, locale: Seq<char>)
    ensures
        language_read(language_after_set(s, l), locale).0 == l,
        language_read(language_after_set(s, l), locale).1 == language_after_set(s, l),
{
}

/// Once read, the language stays what the first read gave, whatever the locale later.
pub proof fn law_language_read_is_stable(s: LanguageSetting, first: Seq<char>, later: Seq<char>)
    ensures
        language_read(language_read(s, first).1, later) == language_read(s, first),
{
}

// ---------------------------------------------------------------- stored values

/// The stored value of a language preference.
pub open spec fn language_value(l: AppLanguage) -> Seq<char> {
    match l {
        AppLanguage::Fr => "fr"@,
        AppLanguage::Uk => "uk"@,
    }
}

/// The language a stored value names: `fr` or `uk`; `None` for any other value.
pub open spec fn language_of_value(v: Seq<char>) -> Option<AppLanguage> {
    if v == "fr"@ {
        Some(AppLanguage::Fr)
    } else if v == "uk"@ {
        Some(AppLanguage::Uk)
    } else {
        None
    }
}

/// The stored value of a language preference.
pub fn language_setting_value(lang: AppLanguage) -> (r: &'static str)
    ensures
        r@ == language_value(lang),
{
    match lang {
        AppLanguage::Fr => "fr",
        AppLanguage::Uk => "uk",
    }
}

/// The language a stored value names.
pub fn parse_language_setting(value: &str) -> (r: Option<AppLanguage>)
    ensures
        r == language_of_value(value@),
{
    if same_text(value, "fr") {
        Some(AppLanguage::Fr)
    } else if same_text(value, "uk") {
        Some(AppLanguage::Uk)
    } else {
        None
    }
}

/// A stored language reads back as the language stored.
pub proof fn law_language_value_round_trip(l: AppLanguage)
    ensures
        language_of_value(language_value(l)) == Some(l),
{
    reveal_strlit("fr");
    reveal_strlit("uk");
    assert("fr"@ != "uk"@) by {
        assert("fr"@[0] != "uk"@[0]);
    }
}

} // verus!
