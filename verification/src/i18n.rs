use vstd::prelude::*;

use crate::text::str_chars;
use crate::text::str_eq;
use crate::text::chars_to_string;

verus! {

// Query normalization: language-specific diacritic folding followed by
// canonicalization of separators.  Every character maps independently to a
// short replacement, so the whole transformation is the concatenation of the
// per-character folds.
pub open spec fn base_fold(c: char) -> Seq<char> {
    if c == '-' || c == ' ' {
        seq!['_']
    } else {
        seq![c]
    }
}

pub open spec fn de_fold(c: char) -> Seq<char> {
    if c == 'Ö' {
        seq!['O', 'e']
    } else if c == 'ö' {
        seq!['o', 'e']
    } else if c == 'Ü' {
        seq!['U', 'e']
    } else if c == 'ü' {
        seq!['u', 'e']
    } else if c == 'Ä' {
        seq!['A', 'e']
    } else if c == 'ä' {
        seq!['a', 'e']
    } else if c == 'ß' {
        seq!['s', 's']
    } else {
        base_fold(c)
    }
}

pub open spec fn md_fold(c: char) -> Seq<char> {
    if c == 'ă' || c == 'â' {
        seq!['a']
    } else if c == 'î' {
        seq!['i']
    } else if c == 'ș' {
        seq!['s']
    } else if c == 'ț' {
        seq!['t']
    } else {
        base_fold(c)
    }
}

pub open spec fn fold_char(lang: Seq<char>, c: char) -> Seq<char> {
    if lang == "de"@ {
        de_fold(c)
    } else if lang == "md"@ {
        md_fold(c)
    } else {
        base_fold(c)
    }
}

pub open spec fn format_spec(lang: Seq<char>, s: Seq<char>) -> Seq<char>
    decreases s.len(),
{
    if s.len() == 0 {
        Seq::empty()
    } else {
        format_spec(lang, s.drop_last()) + fold_char(lang, s.last())
    }
}

fn char_vec1(a: char) -> (r: Vec<char>)
    ensures
        r@ == seq![a],
{
    let mut r: Vec<char> = Vec::new();
    r.push(a);
    proof {
        assert(r@ =~= seq![a]);
    }
    r
}

fn char_vec2(a: char, b: char) -> (r: Vec<char>)
    ensures
        r@ == seq![a, b],
{
    let mut r: Vec<char> = Vec::new();
    r.push(a);
    r.push(b);
    proof {
        assert(r@ =~= seq![a, b]);
    }
    r
}

fn base_fold_char(c: char) -> (r: Vec<char>)
    ensures
        r@ == base_fold(c),
{
    if c == '-' || c == ' ' {
        char_vec1('_')
    } else {
        char_vec1(c)
    }
}

fn de_fold_char(c: char) -> (r: Vec<char>)
    ensures
        r@ == de_fold(c),
{
    if c == 'Ö' {
        char_vec2('O', 'e')
    } else if c == 'ö' {
        char_vec2('o', 'e')
    } else if c == 'Ü' {
        char_vec2('U', 'e')
    } else if c == 'ü' {
        char_vec2('u', 'e')
    } else if c == 'Ä' {
        char_vec2('A', 'e')
    } else if c == 'ä' {
        char_vec2('a', 'e')
    } else if c == 'ß' {
        char_vec2('s', 's')
    } else {
        base_fold_char(c)
    }
}

fn md_fold_char(c: char) -> (r: Vec<char>)
    ensures
        r@ == md_fold(c),
{
    if c == 'ă' || c == 'â' {
        char_vec1('a')
    } else if c == 'î' {
        char_vec1('i')
    } else if c == 'ș' {
        char_vec1('s')
    } else if c == 'ț' {
        char_vec1('t')
    } else {
        base_fold_char(c)
    }
}

// The per-language message tables.
#[verifier::ext_equal]
pub struct ReportMsgsV {
    pub msg: Seq<char>,
    pub error_msg: Seq<char>,
    pub success_msg: Seq<char>,
    pub cancel_msg: Seq<char>,
}

#[verifier::ext_equal]
pub struct I18nV {
    pub lang: Seq<char>,
    pub start_msg: Seq<char>,
    pub song_not_found: Seq<char>,
    pub report: ReportMsgsV,
}

#[derive(Clone)]
pub struct ReportMsgs {
    pub msg: String,
    pub error_msg: String,
    pub success_msg: String,
    pub cancel_msg: String,
}

impl View for ReportMsgs {
    type V = ReportMsgsV;

    open spec fn view(&self) -> ReportMsgsV {
        ReportMsgsV {
            msg: self.msg@,
            error_msg: self.error_msg@,
            success_msg: self.success_msg@,
            cancel_msg: self.cancel_msg@,
        }
    }
}

#[derive(Clone)]
pub struct I18n {
    pub lang: String,
    pub start_msg: String,
    pub song_not_found: String,
    pub report: ReportMsgs,
}

impl View for I18n {
    type V = I18nV;

    open spec fn view(&self) -> I18nV {
        I18nV {
            lang: self.lang@,
            start_msg: self.start_msg@,
            song_not_found: self.song_not_found@,
            report: self.report@,
        }
    }
}

// The category commands that the start message advertises: one line per
// folder, each rendered as the slash command that lists that folder.
pub open spec fn command_list_spec(names: Seq<Seq<char>>) -> Seq<char>
    decreases names.len(),
{
    if names.len() == 0 {
        Seq::empty()
    } else {
        command_list_spec(names.drop_last()) + seq!['/'] + names.last() + seq!['\n']
    }
}

pub fn get_commands(folder_names: &Vec<String>) -> (r: String)
    ensures
        r@ == command_list_spec(folder_names.deep_view()),
{
    let ghost dv = folder_names.deep_view();
    let mut out: Vec<char> = Vec::new();
    let mut i: usize = 0;
    while i < folder_names.len()
        invariant
            i <= folder_names@.len(),
            dv == folder_names.deep_view(),
            dv.len() == folder_names@.len(),
            forall|j: int| 0 <= j < dv.len() ==> dv[j] == folder_names@[j]@,
            out@ == command_list_spec(dv.take(i as int)),
        decreases folder_names@.len() - i,
    {
        out.push('/');
        let mut name = str_chars(folder_names[i].as_str());
        out.append(&mut name);
        out.push('\n');
        i = i + 1;
        proof {
            assert(dv.take(i as int).drop_last() =~= dv.take(i as int - 1));
            assert(out@ =~= command_list_spec(dv.take(i as int - 1)) + seq!['/'] + dv[i as int
                - 1] + seq!['\n']);
        }
    }
    proof {
        assert(dv.take(dv.len() as int) =~= dv);
    }
    chars_to_string(&out)
}

// The message tables themselves, one per supported language.
pub open spec fn start_msg_spec(lang: Seq<char>, commands: Seq<char>) -> Seq<char> {
    if lang == "de"@ {
        "Hallo. Dies ist ein digitales Liederbuch. :)\nBefehle:\n/list - Listet alle Lieder auf\n"@
            + commands
            + "Ansonsten tippe einfach den Titel oder Teile des Titels des Liedes ein und du bekommst dein Lied zugeschickt."@
    } else if lang == "md"@ {
        "Salut! Această e o carte de cântari digitală. :)\nComenzi:\n/list - Listează toate cântările\n"@
            + commands
            + "Deasemenea puteți introduce titlul sau cuvinte din titlul cântării iar bot-ul va găsi piesa corespondentă."@
    } else {
        "Hello. This is a digital song book. :)\nCommands:\n/list - Lists all songs\n"@ + commands
            + "Otherwise simply type the title or parts of the title of the song and you will receive the song."@
    }
}

pub open spec fn song_not_found_spec(lang: Seq<char>) -> Seq<char> {
    if lang == "de"@ {
        "Kein Lied mit diesem Titel gefunden."@
    } else if lang == "md"@ {
        "Niciun cântec găsit cu acest nume"@
    } else {
        "Didn't find any song with this title."@
    }
}

pub open spec fn report_msgs_spec(lang: Seq<char>) -> ReportMsgsV {
    if lang == "de"@ {
        ReportMsgsV {
            msg: "Bitte sende einen gefundenen Fehler entweder als Text oder Sprachnachricht."@,
            error_msg: "Das hat nicht funktioniert. Versuche es nochmal oder /cancel."@,
            success_msg: "Deine Korrektur wurde erfolgreich gemeldet."@,
            cancel_msg: "Das Fehlermelden wurde abgebrochen."@,
        }
    } else if lang == "md"@ {
        ReportMsgsV {
            msg: "Vă rugăm să trimiteți eroare pe care ați găsit-o fie ca mesaj text sau vocal."@,
            error_msg: "Asta nu a mers. Încercați din nou sau /cancel"@,
            success_msg: "A raportat corect corectia."@,
            cancel_msg: "Raportarea a fost anulată."@,
        }
    } else {
        ReportMsgsV {
            msg: "Please send an error you found either as text or voice message."@,
            error_msg: "That didn't work. Try again or /cancel."@,
            success_msg: "Successfully reported your correction."@,
            cancel_msg: "Reporting canceled."@,
        }
    }
}

pub open spec fn i18n_spec(lang: Seq<char>, commands: Seq<char>) -> I18nV {
    I18nV {
        lang: lang,
        start_msg: start_msg_spec(lang, commands),
        song_not_found: song_not_found_spec(lang),
        report: report_msgs_spec(lang),
    }
}

impl I18n {
    pub fn new(lang: String, folder_names: Vec<String>) -> (r: Self)
        ensures
            r@ == i18n_spec(lang@, command_list_spec(folder_names.deep_view())),
    {
        let commands = get_commands(&folder_names);
        let is_de = str_eq(lang.as_str(), "de");
        let is_md = str_eq(lang.as_str(), "md");
        if is_de {
            let mut start_msg = String::from_str(
                "Hallo. Dies ist ein digitales Liederbuch. :)\nBefehle:\n/list - Listet alle Lieder auf\n",
            );
            start_msg.append(commands.as_str());
            start_msg.append(
                "Ansonsten tippe einfach den Titel oder Teile des Titels des Liedes ein und du bekommst dein Lied zugeschickt.",
            );
            Self {
                lang,
                start_msg,
                song_not_found: String::from_str("Kein Lied mit diesem Titel gefunden."),
                report: ReportMsgs {
                    msg: String::from_str(
                        "Bitte sende einen gefundenen Fehler entweder als Text oder Sprachnachricht.",
                    ),
                    error_msg: String::from_str(
                        "Das hat nicht funktioniert. Versuche es nochmal oder /cancel.",
                    ),
                    success_msg: String::from_str("Deine Korrektur wurde erfolgreich gemeldet."),
                    cancel_msg: String::from_str("Das Fehlermelden wurde abgebrochen."),
                },
            }
        } else if is_md {
            let mut start_msg = String::from_str(
                "Salut! Această e o carte de cântari digitală. :)\nComenzi:\n/list - Listează toate cântările\n",
            );
            start_msg.append(commands.as_str());
            start_msg.append(
                "Deasemenea puteți introduce titlul sau cuvinte din titlul cântării iar bot-ul va găsi piesa corespondentă.",
            );
            Self {
                lang,
                start_msg,
                song_not_found: String::from_str("Niciun cântec găsit cu acest nume"),
                report: ReportMsgs {
                    msg: String::from_str(
                        "Vă rugăm să trimiteți eroare pe care ați găsit-o fie ca mesaj text sau vocal.",
                    ),
                    error_msg: String::from_str("Asta nu a mers. Încercați din nou sau /cancel"),
                    success_msg: String::from_str("A raportat corect corectia."),
                    cancel_msg: String::from_str("Raportarea a fost anulată."),
                },
            }
        } else {
            let mut start_msg = String::from_str(
                "Hello. This is a digital song book. :)\nCommands:\n/list - Lists all songs\n",
            );
            start_msg.append(commands.as_str());
            start_msg.append(
                "Otherwise simply type the title or parts of the title of the song and you will receive the song.",
            );
            Self {
                lang,
                start_msg,
                song_not_found: String::from_str("Didn't find any song with this title."),
                report: ReportMsgs {
                    msg: String::from_str(
                        "Please send an error you found either as text or voice message.",
                    ),
                    error_msg: String::from_str("That didn't work. Try again or /cancel."),
                    success_msg: String::from_str("Successfully reported your correction."),
                    cancel_msg: String::from_str("Reporting canceled."),
                },
            }
        }
    }

    pub fn format(&self, name: &String) -> (r: String)
        ensures
            r@ == format_spec(self.lang@, name@),
    {
        fold_chars(&self.lang, name)
    }
}

pub fn fold_chars(lang: &String, name: &String) -> (r: String)
    ensures
        r@ == format_spec(lang@, name@),
{
    let cs = str_chars(name.as_str());
    let is_de = str_eq(lang.as_str(), "de");
    let is_md = str_eq(lang.as_str(), "md");
    let mut out: Vec<char> = Vec::new();
    let mut i: usize = 0;
    while i < cs.len()
        invariant
            i <= cs@.len(),
            cs@ == name@,
            is_de == (lang@ == "de"@),
            is_md == (lang@ == "md"@),
            out@ == format_spec(lang@, cs@.take(i as int)),
        decreases cs@.len() - i,
    {
        let c = cs[i];
        let mut mapped: Vec<char> = if is_de {
            de_fold_char(c)
        } else if is_md {
            md_fold_char(c)
        } else {
            base_fold_char(c)
        };
        out.append(&mut mapped);
        i = i + 1;
        proof {
            assert(cs@.take(i as int).drop_last() =~= cs@.take(i as int - 1));
        }
    }
    proof {
        assert(cs@.take(cs@.len() as int) =~= cs@);
    }
    chars_to_string(&out)
}

} // verus!
