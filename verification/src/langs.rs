use vstd::prelude::*;

use crate::i18n::command_list_spec;
use crate::i18n::fold_chars;
use crate::i18n::format_spec;
use crate::i18n::song_not_found_spec;
use crate::i18n::start_msg_spec;
use crate::text::str_eq;

verus! {

// An earlier shape of the message table, kept alongside `I18n`: the same
// start and not-found messages, without the report texts.
#[verifier::ext_equal]
pub struct StringsV {
    pub lang: Seq<char>,
    pub start_msg: Seq<char>,
    pub song_not_found: Seq<char>,
}

#[derive(Clone)]
pub struct Strings {
    pub lang: String,
    pub start_msg: String,
    pub song_not_found: String,
}

impl View for Strings {
    type V = StringsV;

    open spec fn view(&self) -> StringsV {
        StringsV {
            lang: self.lang@,
            start_msg: self.start_msg@,
            song_not_found: self.song_not_found@,
        }
    }
}

pub fn get_commands(folder_names: &Vec<String>) -> (r: String)
    ensures
        r@ == command_list_spec(folder_names.deep_view()),
{
    crate::i18n::get_commands(folder_names)
}

impl Strings {
    pub fn new(lang: String, folder_names: Vec<String>) -> (r: Self)
        ensures
            r@.lang == lang@,
            r@.start_msg == start_msg_spec(lang@, command_list_spec(folder_names.deep_view())),
            r@.song_not_found == song_not_found_spec(lang@),
    {
        let commands = get_commands(&folder_names);
        let start_msg: String;
        let song_not_found: String;
        let is_de = str_eq(lang.as_str(), "de");
        let is_md = str_eq(lang.as_str(), "md");
        if is_de {
            let mut m = String::from_str(
                "Hallo. Dies ist ein digitales Liederbuch. :)\nBefehle:\n/list - Listet alle Lieder auf\n",
            );
            m.append(commands.as_str());
            m.append(
                "Ansonsten tippe einfach den Titel oder Teile des Titels des Liedes ein und du bekommst dein Lied zugeschickt.",
            );
            start_msg = m;
            song_not_found = String::from_str("Kein Lied mit diesem Titel gefunden.");
        } else if is_md {
            let mut m = String::from_str(
                "Salut! Această e o carte de cântari digitală. :)\nComenzi:\n/list - Listează toate cântările\n",
            );
            m.append(commands.as_str());
            m.append(
                "Deasemenea puteți introduce titlul sau cuvinte din titlul cântării iar bot-ul va găsi piesa corespondentă.",
            );
            start_msg = m;
            song_not_found = String::from_str("Niciun cântec găsit cu acest nume");
        } else {
            let mut m = String::from_str(
                "Hello. This is a digital song book. :)\nCommands:\n/list - Lists all songs\n",
            );
            m.append(commands.as_str());
            m.append(
                "Otherwise simply type the title or parts of the title of the song and you will receive the song.",
            );
            start_msg = m;
            song_not_found = String::from_str("Didn't find any song with this title.");
        }
        Self { lang, start_msg, song_not_found }
    }

    pub fn format(&self, name: &String) -> (r: String)
        ensures
            r@ == format_spec(self.lang@, name@),
    {
        fold_chars(&self.lang, name)
    }
}

} // verus!
