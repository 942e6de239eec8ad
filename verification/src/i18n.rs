//! The texts of the interface in each supported language.

use vstd::prelude::*;
use crate::text::{opt_text, starts_with, starts_with_chars, to_chars};

verus! {

broadcast use vstd::string::group_string_axioms;

/// The texts of the interface in one language.
#[derive(Clone, Copy, Debug)]
pub struct Translations {
    pub title: &'static str,
    pub tab_devices: &'static str,
    pub advanced_options: &'static str,
    pub hide_unknown_bt: &'static str,
    pub bluetooth: &'static str,
    pub unified: &'static str,
    pub output: &'static str,
    pub input: &'static str,
    pub audio_device: &'static str,
    pub refresh: &'static str,
    pub status_ready: &'static str,
    pub status_applied: &'static str,
    pub status_connecting: &'static str,
    pub status_connected: &'static str,
    pub status_failed: &'static str,
    pub filter_active: &'static str,
    pub exclude_instruction: &'static str,
    pub volume: &'static str,
    pub menu_quit: &'static str,
    pub open_logs: &'static str,
    pub tab_about: &'static str,
    pub dev_info: &'static str,
    pub github: &'static str,
    pub website: &'static str,
    pub install_prompt: &'static str,
    pub install_now: &'static str,
    pub maybe_later: &'static str,
}

/// The languages the interface is translated to.
#[derive(PartialEq, Eq, Structural, Clone, Copy, Debug)]
pub enum Language {
    En,
    Pt,
    Es,
    Fr,
    De,
    It,
}

/// The English texts.
pub open spec fn english_texts() -> Translations {
    Translations {
        title: "Audio Selector",
        tab_devices: "Devices",
        advanced_options: "Advanced Options",
        hide_unknown_bt: "Hide unknown Bluetooth devices (MAC addresses)",
        bluetooth: "Bluetooth",
        unified: "Use same device for input/output",
        output: "Output Device",
        input: "Input Device",
        audio_device: "Audio Device",
        refresh: "Refresh Devices",
        status_ready: "Ready",
        status_applied: "Applied",
        status_connecting: "Connecting Bluetooth...",
        status_connected: "Bluetooth Connected",
        status_failed: "Bluetooth Connection Failed",
        filter_active: "Enable Excluded Devices",
        exclude_instruction: "Check devices below to hide them:",
        volume: "Volume",
        menu_quit: "Quit",
        open_logs: "Open Application Logs",
        tab_about: "About",
        dev_info: "Developer: Evandro Jr",
        github: "GitHub",
        website: "Website",
        install_prompt: "Would you like to install Audio Selector to your system? This will add it to your applications menu and autostart.",
        install_now: "Install Now",
        maybe_later: "Maybe Later",
    }
}

/// The Portuguese texts.
pub open spec fn portuguese_texts() -> Translations {
    Translations {
        title: "Seletor de \u{c1}udio",
        tab_devices: "Dispositivos",
        advanced_options: "Op\u{e7}\u{f5}es Avan\u{e7}adas",
        hide_unknown_bt: "Ocultar dispositivos Bluetooth desconhecidos (MACs)",
        bluetooth: "Bluetooth",
        unified: "Mesmo dispositivo para entrada/sa\u{ed}da",
        output: "Dispositivo de Sa\u{ed}da",
        input: "Dispositivo de Entrada",
        audio_device: "Dispositivo de \u{c1}udio",
        refresh: "Atualizar Dispositivos",
        status_ready: "Pronto",
        status_applied: "Aplicado",
        status_connecting: "Conectando Bluetooth...",
        status_connected: "Bluetooth Conectado",
        status_failed: "Falha na Conex\u{e3}o Bluetooth",
        filter_active: "Ativar Dispositivos Exclu\u{ed}dos",
        exclude_instruction: "Marque os dispositivos abaixo para ocultar:",
        volume: "Volume",
        menu_quit: "Sair",
        open_logs: "Abrir Logs da Aplica\u{e7}\u{e3}o",
        tab_about: "Sobre",
        dev_info: "Desenvolvedor: Evandro Jr",
        github: "GitHub",
        website: "Site",
        install_prompt: "Deseja instalar o Seletor de \u{c1}udio no seu sistema? Isso o adicionar\u{e1} ao menu de aplicativos e ao in\u{ed}cio autom\u{e1}tico.",
        install_now: "Instalar Agora",
        maybe_later: "Talvez Depois",
    }
}

/// The Spanish texts.
pub open spec fn spanish_texts() -> Translations {
    Translations {
        title: "Selector de Audio",
        tab_devices: "Dispositivos",
        advanced_options: "Opciones Avanzadas",
        hide_unknown_bt: "Ocultar dispositivos Bluetooth desconocidos (MAC)",
        bluetooth: "Bluetooth",
        unified: "Mismo dispositivo para entrada/salida",
        output: "Dispositivo de Salida",
        input: "Dispositivo de Entrada",
        audio_device: "Dispositivo de Audio",
        refresh: "Actualizar Dispositivos",
        status_ready: "Listo",
        status_applied: "Aplicado",
        status_connecting: "Conectando Bluetooth...",
        status_connected: "Bluetooth Conectado",
        status_failed: "Error en Conexi\u{f3}n Bluetooth",
        filter_active: "Activar Dispositivos Excluidos",
        exclude_instruction: "Marque los dispositivos a continuaci\u{f3}n:",
        volume: "Volumen",
        menu_quit: "Salir",
        open_logs: "Abrir Logs de la Aplicaci\u{f3}n",
        tab_about: "Acerca de",
        dev_info: "Desarrollador: Evandro Jr",
        github: "GitHub",
        website: "Sitio web",
        install_prompt: "\u{bf}Desea instalar Selector de Audio en su sistema? Esto lo agregar\u{e1} al menu de aplicaciones y al inicio autom\u{e1}tico.",
        install_now: "Instalar Ahora",
        maybe_later: "Tal vez despu\u{e9}s",
    }
}

/// The French texts.
pub open spec fn french_texts() -> Translations {
    Translations {
        title: "S\u{e9}lecteur d'Audio",
        tab_devices: "Appareils",
        advanced_options: "Options Avanc\u{e9}es",
        hide_unknown_bt: "Masquer les appareils Bluetooth inconnus (MAC)",
        bluetooth: "Bluetooth",
        unified: "M\u{ea}me appareil pour l'entr\u{e9}e/sortie",
        output: "Appareil de Sortie",
        input: "Appareil d'Entr\u{e9}e",
        audio_device: "Appareil Audio",
        refresh: "Actualiser les Appareils",
        status_ready: "Pr\u{ea}t",
        status_applied: "Appliqu\u{e9}",
        status_connecting: "Connexion Bluetooth...",
        status_connected: "Bluetooth Connect\u{e9}",
        status_failed: "\u{c9}chec de Connexion Bluetooth",
        filter_active: "Activer Appareils Exclus",
        exclude_instruction: "Cochez les appareils ci-dessous:",
        volume: "Volume",
        menu_quit: "Quitter",
        open_logs: "Ouvrir os Logs de l'Application",
        tab_about: "\u{c0} propos",
        dev_info: "D\u{e9}veloppeur: Evandro Jr",
        github: "GitHub",
        website: "Site web",
        install_prompt: "Souhaitez-vous installer le S\u{e9}lecteur d'Audio sur votre syst\u{e8}me? Cela l'ajoutera ao menu des applications et au d\u{e9}marrage automatique.",
        install_now: "Installer Maintenant",
        maybe_later: "Peut-\u{ea}tre plus tard",
    }
}

/// The German texts.
pub open spec fn german_texts() -> Translations {
    Translations {
        title: "Audio-Selector",
        tab_devices: "Ger\u{e4}te",
        advanced_options: "Erweiterte Optionen",
        hide_unknown_bt: "Unbekannte Bluetooth-Ger\u{e4}te ausblenden (MAC)",
        bluetooth: "Bluetooth",
        unified: "Gleiches Ger\u{e4}t f\u{fc}r Ein-/Ausgabe",
        output: "Ausgabeger\u{e4}t",
        input: "Eingabeger\u{e4}t",
        audio_device: "Audioger\u{e4}t",
        refresh: "Ger\u{e4}te aktualisieren",
        status_ready: "Bereit",
        status_applied: "Angewendet",
        status_connecting: "Bluetooth wird verbunden...",
        status_connected: "Bluetooth verbunden",
        status_failed: "Bluetooth-Verbindung fehlgeschlagen",
        filter_active: "Ausgeschlossene Ger\u{e4}te aktivieren",
        exclude_instruction: "Ger\u{e4}te unten ankreuzen:",
        volume: "Lautst\u{e4}rke",
        menu_quit: "Beenden",
        open_logs: "Anwendungsprotokolle \u{f6}ffnen",
        tab_about: "\u{dc}ber",
        dev_info: "Entwickler: Evandro Jr",
        github: "GitHub",
        website: "Webseite",
        install_prompt: "M\u{f6}chten Sie den Audio-Selector auf Ihrem System installieren? Dies f\u{fc}gt ihn zum Anwendungsmen\u{fc} e zum Autostart hinzu.",
        install_now: "Jetzt installieren",
        maybe_later: "Vielleicht sp\u{e4}ter",
    }
}

/// The Italian texts.
pub open spec fn italian_texts() -> Translations {
    Translations {
        title: "Selettore Audio",
        tab_devices: "Dispositivi",
        advanced_options: "Opzioni Avanzate",
        hide_unknown_bt: "Nascondi dispositivos Bluetooth sconosciuti (MAC)",
        bluetooth: "Bluetooth",
        unified: "Stesso dispositivo per ingresso/uscita",
        output: "Dispositivo di Uscita",
        input: "Dispositivo de Ingresso",
        audio_device: "Dispositivo Audio",
        refresh: "Aggiorna Dispositivi",
        status_ready: "Pronto",
        status_applied: "Applicato",
        status_connecting: "Connessione Bluetooth...",
        status_connected: "Bluetooth Connesso",
        status_failed: "Connessione Bluetooth Fallita",
        filter_active: "Abilita Dispositivi Esclusi",
        exclude_instruction: "Seleziona i dispositivos qui sotto:",
        volume: "Volume",
        menu_quit: "Esci",
        open_logs: "Apri i Log dell'Applicazione",
        tab_about: "Informazioni",
        dev_info: "Sviluppatore: Evandro Jr",
        github: "GitHub",
        website: "Sito web",
        install_prompt: "Vuoi installare Selettore Audio sul tuo sistema? Questo lo aggiunger\u{e0} al menu delle applicazioni e all'avvio automatico.",
        install_now: "Installa Ora",
        maybe_later: "Forse pi\u{f9} tardi",
    }
}

/// The texts of a language.
pub open spec fn texts(lang: Language) -> Translations {
    match lang {
        Language::En => english_texts(),
        Language::Pt => portuguese_texts(),
        Language::Es => spanish_texts(),
        Language::Fr => french_texts(),
        Language::De => german_texts(),
        Language::It => italian_texts(),
    }
}

/// The texts of a language.
pub fn translations(lang: Language) -> (t: Translations)
    ensures
        t == texts(lang),
{
    match lang {
        Language::En => Translations {
            title: "Audio Selector",
            tab_devices: "Devices",
            advanced_options: "Advanced Options",
            hide_unknown_bt: "Hide unknown Bluetooth devices (MAC addresses)",
            bluetooth: "Bluetooth",
            unified: "Use same device for input/output",
            output: "Output Device",
            input: "Input Device",
            audio_device: "Audio Device",
            refresh: "Refresh Devices",
            status_ready: "Ready",
            status_applied: "Applied",
            status_connecting: "Connecting Bluetooth...",
            status_connected: "Bluetooth Connected",
            status_failed: "Bluetooth Connection Failed",
            filter_active: "Enable Excluded Devices",
            exclude_instruction: "Check devices below to hide them:",
            volume: "Volume",
            menu_quit: "Quit",
            open_logs: "Open Application Logs",
            tab_about: "About",
            dev_info: "Developer: Evandro Jr",
            github: "GitHub",
            website: "Website",
            install_prompt: "Would you like to install Audio Selector to your system? This will add it to your applications menu and autostart.",
            install_now: "Install Now",
            maybe_later: "Maybe Later",
        },
        Language::Pt => Translations {
            title: "Seletor de \u{c1}udio",
            tab_devices: "Dispositivos",
            advanced_options: "Op\u{e7}\u{f5}es Avan\u{e7}adas",
            hide_unknown_bt: "Ocultar dispositivos Bluetooth desconhecidos (MACs)",
            bluetooth: "Bluetooth",
            unified: "Mesmo dispositivo para entrada/sa\u{ed}da",
            output: "Dispositivo de Sa\u{ed}da",
            input: "Dispositivo de Entrada",
            audio_device: "Dispositivo de \u{c1}udio",
            refresh: "Atualizar Dispositivos",
            status_ready: "Pronto",
            status_applied: "Aplicado",
            status_connecting: "Conectando Bluetooth...",
            status_connected: "Bluetooth Conectado",
            status_failed: "Falha na Conex\u{e3}o Bluetooth",
            filter_active: "Ativar Dispositivos Exclu\u{ed}dos",
            exclude_instruction: "Marque os dispositivos abaixo para ocultar:",
            volume: "Volume",
            menu_quit: "Sair",
            open_logs: "Abrir Logs da Aplica\u{e7}\u{e3}o",
            tab_about: "Sobre",
            dev_info: "Desenvolvedor: Evandro Jr",
            github: "GitHub",
            website: "Site",
            install_prompt: "Deseja instalar o Seletor de \u{c1}udio no seu sistema? Isso o adicionar\u{e1} ao menu de aplicativos e ao in\u{ed}cio autom\u{e1}tico.",
            install_now: "Instalar Agora",
            maybe_later: "Talvez Depois",
        },
        Language::Es => Translations {
            title: "Selector de Audio",
            tab_devices: "Dispositivos",
            advanced_options: "Opciones Avanzadas",
            hide_unknown_bt: "Ocultar dispositivos Bluetooth desconocidos (MAC)",
            bluetooth: "Bluetooth",
            unified: "Mismo dispositivo para entrada/salida",
            output: "Dispositivo de Salida",
            input: "Dispositivo de Entrada",
            audio_device: "Dispositivo de Audio",
            refresh: "Actualizar Dispositivos",
            status_ready: "Listo",
            status_applied: "Aplicado",
            status_connecting: "Conectando Bluetooth...",
            status_connected: "Bluetooth Conectado",
            status_failed: "Error en Conexi\u{f3}n Bluetooth",
            filter_active: "Activar Dispositivos Excluidos",
            exclude_instruction: "Marque los dispositivos a continuaci\u{f3}n:",
            volume: "Volumen",
            menu_quit: "Salir",
            open_logs: "Abrir Logs de la Aplicaci\u{f3}n",
            tab_about: "Acerca de",
            dev_info: "Desarrollador: Evandro Jr",
            github: "GitHub",
            website: "Sitio web",
            install_prompt: "\u{bf}Desea instalar Selector de Audio en su sistema? Esto lo agregar\u{e1} al menu de aplicaciones y al inicio autom\u{e1}tico.",
            install_now: "Instalar Ahora",
            maybe_later: "Tal vez despu\u{e9}s",
        },
        Language::Fr => Translations {
            title: "S\u{e9}lecteur d'Audio",
            tab_devices: "Appareils",
            advanced_options: "Options Avanc\u{e9}es",
            hide_unknown_bt: "Masquer les appareils Bluetooth inconnus (MAC)",
            bluetooth: "Bluetooth",
            unified: "M\u{ea}me appareil pour l'entr\u{e9}e/sortie",
            output: "Appareil de Sortie",
            input: "Appareil d'Entr\u{e9}e",
            audio_device: "Appareil Audio",
            refresh: "Actualiser les Appareils",
            status_ready: "Pr\u{ea}t",
            status_applied: "Appliqu\u{e9}",
            status_connecting: "Connexion Bluetooth...",
            status_connected: "Bluetooth Connect\u{e9}",
            status_failed: "\u{c9}chec de Connexion Bluetooth",
            filter_active: "Activer Appareils Exclus",
            exclude_instruction: "Cochez les appareils ci-dessous:",
            volume: "Volume",
            menu_quit: "Quitter",
            open_logs: "Ouvrir os Logs de l'Application",
            tab_about: "\u{c0} propos",
            dev_info: "D\u{e9}veloppeur: Evandro Jr",
            github: "GitHub",
            website: "Site web",
            install_prompt: "Souhaitez-vous installer le S\u{e9}lecteur d'Audio sur votre syst\u{e8}me? Cela l'ajoutera ao menu des applications et au d\u{e9}marrage automatique.",
            install_now: "Installer Maintenant",
            maybe_later: "Peut-\u{ea}tre plus tard",
        },
        Language::De => Translations {
            title: "Audio-Selector",
            tab_devices: "Ger\u{e4}te",
            advanced_options: "Erweiterte Optionen",
            hide_unknown_bt: "Unbekannte Bluetooth-Ger\u{e4}te ausblenden (MAC)",
            bluetooth: "Bluetooth",
            unified: "Gleiches Ger\u{e4}t f\u{fc}r Ein-/Ausgabe",
            output: "Ausgabeger\u{e4}t",
            input: "Eingabeger\u{e4}t",
            audio_device: "Audioger\u{e4}t",
            refresh: "Ger\u{e4}te aktualisieren",
            status_ready: "Bereit",
            status_applied: "Angewendet",
            status_connecting: "Bluetooth wird verbunden...",
            status_connected: "Bluetooth verbunden",
            status_failed: "Bluetooth-Verbindung fehlgeschlagen",
            filter_active: "Ausgeschlossene Ger\u{e4}te aktivieren",
            exclude_instruction: "Ger\u{e4}te unten ankreuzen:",
            volume: "Lautst\u{e4}rke",
            menu_quit: "Beenden",
            open_logs: "Anwendungsprotokolle \u{f6}ffnen",
            tab_about: "\u{dc}ber",
            dev_info: "Entwickler: Evandro Jr",
            github: "GitHub",
            website: "Webseite",
            install_prompt: "M\u{f6}chten Sie den Audio-Selector auf Ihrem System installieren? Dies f\u{fc}gt ihn zum Anwendungsmen\u{fc} e zum Autostart hinzu.",
            install_now: "Jetzt installieren",
            maybe_later: "Vielleicht sp\u{e4}ter",
        },
        Language::It => Translations {
            title: "Selettore Audio",
            tab_devices: "Dispositivi",
            advanced_options: "Opzioni Avanzate",
            hide_unknown_bt: "Nascondi dispositivos Bluetooth sconosciuti (MAC)",
            bluetooth: "Bluetooth",
            unified: "Stesso dispositivo per ingresso/uscita",
            output: "Dispositivo di Uscita",
            input: "Dispositivo de Ingresso",
            audio_device: "Dispositivo Audio",
            refresh: "Aggiorna Dispositivi",
            status_ready: "Pronto",
            status_applied: "Applicato",
            status_connecting: "Connessione Bluetooth...",
            status_connected: "Bluetooth Connesso",
            status_failed: "Connessione Bluetooth Fallita",
            filter_active: "Abilita Dispositivi Esclusi",
            exclude_instruction: "Seleziona i dispositivos qui sotto:",
            volume: "Volume",
            menu_quit: "Esci",
            open_logs: "Apri i Log dell'Applicazione",
            tab_about: "Informazioni",
            dev_info: "Sviluppatore: Evandro Jr",
            github: "GitHub",
            website: "Sito web",
            install_prompt: "Vuoi installare Selettore Audio sul tuo sistema? Questo lo aggiunger\u{e0} al menu delle applicazioni e all'avvio automatico.",
            install_now: "Installa Ora",
            maybe_later: "Forse pi\u{f9} tardi",
        },
    }
}

impl Translations {
    /// The status shown when a Bluetooth connection ends: connected, or
    /// failed.
    pub fn connection_status(&self, connected: bool) -> (s: &'static str)
        ensures
            s == if connected {
                self.status_connected
            } else {
                self.status_failed
            },
    {
        if connected {
            self.status_connected
        } else {
            self.status_failed
        }
    }
}

/// The language for a locale tag (`pt-BR`, `de_DE`, ...): the one whose code
/// the tag begins with, English for any other tag; a missing tag reads as
/// `en`.
pub open spec fn language_of(locale: Option<Seq<char>>) -> Language {
    let loc = match locale {
        Some(l) => l,
        None => "en"@,
    };
    if starts_with(loc, "pt"@) {
        Language::Pt
    } else if starts_with(loc, "es"@) {
        Language::Es
    } else if starts_with(loc, "fr"@) {
        Language::Fr
    } else if starts_with(loc, "de"@) {
        Language::De
    } else if starts_with(loc, "it"@) {
        Language::It
    } else {
        Language::En
    }
}

/// The language for a locale tag.
pub fn language_for_locale(locale: &Option<String>) -> (lang: Language)
    ensures
        lang == language_of(opt_text(*locale)),
{
    let loc = match locale {
        Some(l) => to_chars(l.as_str()),
        None => to_chars("en"),
    };
    if starts_with_chars(&loc, &to_chars("pt")) {
        Language::Pt
    } else if starts_with_chars(&loc, &to_chars("es")) {
        Language::Es
    } else if starts_with_chars(&loc, &to_chars("fr")) {
        Language::Fr
    } else if starts_with_chars(&loc, &to_chars("de")) {
        Language::De
    } else if starts_with_chars(&loc, &to_chars("it")) {
        Language::It
    } else {
        Language::En
    }
}

/// The texts for a locale tag.
pub fn translations_for_locale(locale: &Option<String>) -> (t: Translations)
    ensures
        t == texts(language_of(opt_text(*locale))),
{
    translations(language_for_locale(locale))
}

/// `sys_locale::get_locale`: the user's preferred locale tag, if the system
/// reports one. It depends on the environment, so nothing is stated of it.
#[verifier::external_body]
fn system_locale() -> Option<String> {
    sys_locale::get_locale()
}

/// The texts for the user's preferred locale.
pub fn get_current_translations() -> (t: Translations)
    ensures
        exists|locale: Option<Seq<char>>| t == texts(language_of(locale)),
{
    let locale = system_locale();
    translations_for_locale(&locale)
}

} // verus!
