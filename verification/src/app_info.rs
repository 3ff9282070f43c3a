//! An installed application, as the applications plugin offers it.

use vstd::prelude::*;
use crate::package::{clone_text, is_random_uuid_text, text_view, Hit, HitId, HitView};

verus! {

/// What the plugin knows of an application.
#[derive(Debug)]
pub struct AppInfo {
    commandline: Option<String>,
    description: Option<String>,
    display_name: String,
    executable: String,
    icon: Option<String>,
    pub id: Option<String>,
    name: String,
    supported_types: Vec<String>,
}

/// The mathematical value of an [`AppInfo`].
pub ghost struct AppInfoView {
    pub commandline: Option<Seq<char>>,
    pub description: Option<Seq<char>>,
    pub display_name: Seq<char>,
    pub executable: Seq<char>,
    pub icon: Option<Seq<char>>,
    pub id: Option<Seq<char>>,
    pub name: Seq<char>,
    pub supported_types: Seq<Seq<char>>,
}

/// The value of each text, in order.
pub open spec fn texts_view(texts: Seq<String>) -> Seq<Seq<char>> {
    texts.map_values(|text: String| text@)
}

impl View for AppInfo {
    type V = AppInfoView;

    closed spec fn view(&self) -> AppInfoView {
        AppInfoView {
            commandline: text_view(self.commandline),
            description: text_view(self.description),
            display_name: self.display_name@,
            executable: self.executable@,
            icon: text_view(self.icon),
            id: text_view(self.id),
            name: self.name@,
            supported_types: texts_view(self.supported_types@),
        }
    }
}

impl AppInfo {
    /// The application with these properties.
    pub fn new(
        commandline: Option<String>,
        description: Option<String>,
        display_name: String,
        executable: String,
        icon: Option<String>,
        id: Option<String>,
        name: String,
        supported_types: Vec<String>,
    ) -> (app: AppInfo)
        ensures
            app@ == (AppInfoView {
                commandline: text_view(commandline),
                description: text_view(description),
                display_name: display_name@,
                executable: executable@,
                icon: text_view(icon),
                id: text_view(id),
                name: name@,
                supported_types: texts_view(supported_types@),
            }),
    {
        AppInfo {
            commandline,
            description,
            display_name,
            executable,
            icon,
            id,
            name,
            supported_types,
        }
    }

    /// The hit that offers the application: its display name as the title,
    /// its description and icon, plain text, under a fresh identifier.
    pub fn to_hit(&self) -> (hit: Hit)
        ensures
            is_random_uuid_text(hit@.id),
            hit@ == (HitView {
                id: hit@.id,
                title: self@.display_name,
                description: self@.description,
                icon: self@.icon,
                use_pango: false,
            }),
    {
        Hit {
            id: HitId::new(),
            title: self.display_name.clone(),
            description: clone_text(&self.description),
            icon: clone_text(&self.icon),
            use_pango: false,
        }
    }

    /// The application as `(display name, executable, name)`.
    pub fn to_string(&self) -> (text: String)
        ensures
            text@ == seq!['('] + self@.display_name + seq![',', ' '] + self@.executable + seq![
                ',',
                ' ',
            ] + self@.name + seq![')'],
    {
        proof {
            reveal_strlit("(");
            reveal_strlit(", ");
            reveal_strlit(")");
        }
        let mut text = "(".to_owned();
        text.append(self.display_name.as_str());
        text.append(", ");
        text.append(self.executable.as_str());
        text.append(", ");
        text.append(self.name.as_str());
        text.append(")");
        assert("("@ =~= seq!['(']);
        assert(", "@ =~= seq![',', ' ']);
        assert(")"@ =~= seq![')']);
        text
    }
}

} // verus!
