//! A hit as the coordinator keeps it: the display fields, and the process
//! number of the plugin that offered it.

use vstd::prelude::*;
use crate::package::{clone_text, own_text, str_view, text_view, Hit, HitId, HitView};

verus! {

/// A hit in the coordinator's result list.
#[derive(Debug, PartialEq)]
pub struct GHit {
    id: String,
    title: String,
    description: Option<String>,
    icon: Option<String>,
    use_pango: bool,
    plugin_pid: u64,
}

/// The mathematical value of a [`GHit`].
pub ghost struct GHitView {
    pub id: Seq<char>,
    pub title: Seq<char>,
    pub description: Option<Seq<char>>,
    pub icon: Option<Seq<char>>,
    pub use_pango: bool,
    pub plugin_pid: u64,
}

impl GHitView {
    /// The hit that travels on the wire: all but the plugin's process number.
    pub open spec fn hit(self) -> HitView {
        HitView {
            id: self.id,
            title: self.title,
            description: self.description,
            icon: self.icon,
            use_pango: self.use_pango,
        }
    }
}

/// The entry with empty texts, no description, no icon, and no plugin.
pub open spec fn blank() -> GHitView {
    GHitView {
        id: Seq::<char>::empty(),
        title: Seq::<char>::empty(),
        description: None,
        icon: None,
        use_pango: false,
        plugin_pid: 0,
    }
}

/// The list entry for a hit that carries no plugin yet.
pub open spec fn unowned(hit: HitView) -> GHitView {
    GHitView {
        id: hit.id,
        title: hit.title,
        description: hit.description,
        icon: hit.icon,
        use_pango: hit.use_pango,
        plugin_pid: 0,
    }
}

impl View for GHit {
    type V = GHitView;

    closed spec fn view(&self) -> GHitView {
        GHitView {
            id: self.id@,
            title: self.title@,
            description: text_view(self.description),
            icon: text_view(self.icon),
            use_pango: self.use_pango,
            plugin_pid: self.plugin_pid,
        }
    }
}

impl GHit {
    /// An entry with empty texts, no description, no icon, and no plugin.
    pub fn new() -> (entry: GHit)
        ensures
            entry@ == blank(),
    {
        GHit {
            id: String::new(),
            title: String::new(),
            description: None,
            icon: None,
            use_pango: false,
            plugin_pid: 0,
        }
    }

    /// The identifier of the hit.
    pub fn get_id(&self) -> (id: String)
        ensures
            id@ == self@.id,
    {
        self.id.clone()
    }

    /// Sets the identifier of the hit.
    pub fn set_id(&mut self, value: &str)
        ensures
            final(self)@ == (GHitView { id: value@, ..old(self)@ }),
    {
        self.id = value.to_owned();
    }

    /// The title.
    pub fn get_title(&self) -> (title: String)
        ensures
            title@ == self@.title,
    {
        self.title.clone()
    }

    /// Sets the title.
    pub fn set_title(&mut self, value: &str)
        ensures
            final(self)@ == (GHitView { title: value@, ..old(self)@ }),
    {
        self.title = value.to_owned();
    }

    /// The description, if there is one.
    pub fn get_description(&self) -> (description: Option<String>)
        ensures
            text_view(description) == self@.description,
    {
        clone_text(&self.description)
    }

    /// Sets or removes the description.
    pub fn set_description(&mut self, value: Option<&str>)
        ensures
            final(self)@ == (GHitView { description: str_view(value), ..old(self)@ }),
    {
        self.description = own_text(value);
    }

    /// The icon, by name or by path, if there is one.
    pub fn get_icon(&self) -> (icon: Option<String>)
        ensures
            text_view(icon) == self@.icon,
    {
        clone_text(&self.icon)
    }

    /// Sets or removes the icon.
    pub fn set_icon(&mut self, value: Option<&str>)
        ensures
            final(self)@ == (GHitView { icon: str_view(value), ..old(self)@ }),
    {
        self.icon = own_text(value);
    }

    /// Whether title and description hold markup.
    pub fn get_use_pango(&self) -> (use_pango: bool)
        ensures
            use_pango == self@.use_pango,
    {
        self.use_pango
    }

    /// Sets whether title and description hold markup.
    pub fn set_use_pango(&mut self, value: bool)
        ensures
            final(self)@ == (GHitView { use_pango: value, ..old(self)@ }),
    {
        self.use_pango = value;
    }

    /// The process number of the plugin that offered the hit.
    pub fn get_plugin_pid(&self) -> (plugin_pid: u64)
        ensures
            plugin_pid == self@.plugin_pid,
    {
        self.plugin_pid
    }

    /// Sets the process number of the plugin that offered the hit.
    pub fn set_plugin_pid(&mut self, value: u64)
        ensures
            final(self)@ == (GHitView { plugin_pid: value, ..old(self)@ }),
    {
        self.plugin_pid = value;
    }

    /// The list entry for a hit off the wire. It carries no plugin yet.
    pub fn from(value: Hit) -> (entry: GHit)
        ensures
            entry@ == unowned(value@),
    {
        GHit {
            id: value.id.to_string(),
            title: value.title,
            description: value.description,
            icon: value.icon,
            use_pango: value.use_pango,
            plugin_pid: 0,
        }
    }

    /// The hit that goes on the wire for this entry.
    pub fn into_hit(self) -> (hit: Hit)
        ensures
            hit@ == self@.hit(),
    {
        Hit {
            id: HitId::from(self.id.as_str()),
            title: self.title,
            description: self.description,
            icon: self.icon,
            use_pango: self.use_pango,
        }
    }
}

impl Default for GHit {
    fn default() -> (entry: GHit)
        ensures
            entry@ == blank(),
    {
        GHit::new()
    }
}

impl Clone for GHit {
    fn clone(&self) -> (copy: GHit)
        ensures
            copy@ == self@,
    {
        GHit {
            id: self.id.clone(),
            title: self.title.clone(),
            description: clone_text(&self.description),
            icon: clone_text(&self.icon),
            use_pango: self.use_pango,
            plugin_pid: self.plugin_pid,
        }
    }
}

} // verus!
