//! The editor's working state, the events it reacts to, and the transition
//! function that processes one event and names the outside work to do next.

use vstd::prelude::*;
use iced::widget::markdown::Item;
use crate::clock::{
    clock_fields, clock_fields_spec, clock_text, clock_text_spec, lemma_clock_text_round_trip,
    valid_datetime, CalendarDate, Timestamp,
};
use crate::document::{
    lemma_tags_round_trip, tags_from_text, tags_from_text_spec, tags_text, tags_text_spec,
    PersistedPost, PersistedView,
};
use crate::text::{is_trimmed, push_char};

verus! {

#[verifier::external_type_specification]
#[verifier::external_body]
pub struct ExItem(Item);

/// The markdown items that iced's parser gives for a text.
pub uninterp spec fn markdown_items(text: Seq<char>) -> Seq<Item>;

/// Relies on `iced::widget::markdown::parse`: the items depend on the text
/// alone (no highlighter is enabled).
#[verifier::external_body]
fn parse_markdown(text: &str) -> (r: Vec<Item>)
    ensures
        r@ == markdown_items(text@),
{
    iced::widget::markdown::parse(text).collect()
}

/// `s` in lower case, as `str::to_lowercase` gives it.
pub uninterp spec fn lower_of(s: Seq<char>) -> Seq<char>;

/// Relies on `str::to_lowercase`: the result depends on the characters alone.
#[verifier::external_body]
fn lowercase(s: &str) -> (r: String)
    ensures
        r@ == lower_of(s@),
{
    s.to_lowercase()
}

/// The form tab on display.
#[derive(Clone, Copy, Debug, PartialEq, Eq, Structural)]
pub enum TabId {
    Content,
    Meta,
}

/// The editor's working copy of a post.
pub struct Post {
    /// The markdown source being edited.
    pub body: String,
    /// The preview: the markdown items of `body`.
    pub parsed: Vec<Item>,
    pub name: String,
    pub description: String,
    /// The tags, comma-separated.
    pub tags: String,
    pub image_url: String,
    /// Where the post was last loaded from or saved to.
    pub savepath: Option<String>,
    pub selected_tab: TabId,
    pub date: CalendarDate,
    pub show_picker: bool,
    /// The time of day as text: `hh:mm:ss` after a load, otherwise the text
    /// last submitted.
    pub time: String,
    pub show_picker_time: bool,
    /// The bytes of the image fetched from `image_url`.
    pub image: Option<Vec<u8>>,
}

/// What a `Post` holds, as mathematical values.
pub ghost struct PostView {
    pub body: Seq<char>,
    pub parsed: Seq<Item>,
    pub name: Seq<char>,
    pub description: Seq<char>,
    pub tags: Seq<char>,
    pub image_url: Seq<char>,
    pub savepath: Option<Seq<char>>,
    pub selected_tab: TabId,
    pub date: CalendarDate,
    pub show_picker: bool,
    pub time: Seq<char>,
    pub show_picker_time: bool,
    pub image: Option<Seq<u8>>,
}

pub open spec fn opt_text(o: Option<String>) -> Option<Seq<char>> {
    match o {
        Some(s) => Some(s@),
        None => None,
    }
}

pub open spec fn opt_bytes(o: Option<Vec<u8>>) -> Option<Seq<u8>> {
    match o {
        Some(v) => Some(v@),
        None => None,
    }
}

impl View for Post {
    type V = PostView;

    open spec fn view(&self) -> PostView {
        PostView {
            body: self.body@,
            parsed: self.parsed@,
            name: self.name@,
            description: self.description@,
            tags: self.tags@,
            image_url: self.image_url@,
            savepath: opt_text(self.savepath),
            selected_tab: self.selected_tab,
            date: self.date,
            show_picker: self.show_picker,
            time: self.time@,
            show_picker_time: self.show_picker_time,
            image: opt_bytes(self.image),
        }
    }
}

impl PostView {
    /// The preview is that of the current body.
    pub open spec fn wf(self) -> bool {
        self.parsed == markdown_items(self.body)
    }
}

/// What the user or an outside collaborator reports to the editor.
pub enum Event {
    LinkClicked(String),
    /// The body editor's text after an editing action.
    EditContent(String),
    EditTitle(String),
    EditSummary(String),
    EditTags(String),
    EditImageUrl(String),
    SubmitImageUrl(String),
    /// The outcome of fetching the image: its bytes, or `None` on failure.
    ImageFetched(Option<Vec<u8>>),
    TabSelected(TabId),
    LoadFile,
    /// The post read from the file at the given path.
    FileLoaded(String, PersistedPost),
    /// The file chosen for loading, at the given path, could not be opened;
    /// the date and time of day are those of an empty post started now.
    FileUnreadable(String, CalendarDate, String),
    SaveFile,
    /// The outcome of the save dialog opened for `SaveFile`.
    SavePathChosen(Option<String>),
    SaveToFile,
    /// The outcome of the save dialog opened for `SaveToFile`.
    SaveAsPathChosen(Option<String>),
    ChooseDate,
    SubmitDate(CalendarDate),
    CancelDate,
    ChooseTime,
    /// A time of day, written `h:m:s`.
    SubmitTime(String),
    CancelTime,
}

/// The outside work that an event calls for.
pub enum Action {
    Nothing,
    OpenLink(String),
    FetchImage(String),
    PickFileToLoad,
    /// Ask where to save, suggesting this file name; answered by `SavePathChosen`.
    PickSavePath(String),
    /// Ask where to save, suggesting this file name; answered by `SaveAsPathChosen`.
    PickSaveAsPath(String),
    /// Write the post to the path.
    Write(String, PersistedPost),
    /// The date and time of day form no valid instant: the post cannot be saved.
    InvalidTimestamp,
}

/// `s` with every `from` replaced by `to`.
pub open spec fn replace_char_spec(s: Seq<char>, from: char, to: char) -> Seq<char> {
    s.map_values(|c: char| if c == from { to } else { c })
}

/// The file name suggested for a post: its title in lower case, spaces
/// replaced by hyphens.
pub open spec fn suggested_name_spec(title: Seq<char>) -> Seq<char> {
    replace_char_spec(lower_of(title), ' ', '-')
}

/// `s` with every space replaced by a hyphen.
pub fn hyphenate_spaces(s: &str) -> (r: String)
    ensures
        r@ == replace_char_spec(s@, ' ', '-'),
{
    let n = s.unicode_len();
    let mut r = String::new();
    let mut i: usize = 0;
    while i < n
        invariant
            n == s@.len(),
            i <= n,
            r@ =~= replace_char_spec(s@.take(i as int), ' ', '-'),
        decreases n - i,
    {
        let c = s.get_char(i);
        if c == ' ' {
            push_char(&mut r, '-');
        } else {
            push_char(&mut r, c);
        }
        proof {
            assert(s@.take(i + 1) =~= s@.take(i as int).push(c));
        }
        i = i + 1;
    }
    proof {
        assert(s@.take(n as int) =~= s@);
    }
    r
}

/// The file name suggested for a post with this title.
pub fn suggested_file_name(title: &str) -> (r: String)
    ensures
        r@ == suggested_name_spec(title@),
{
    let lower = lowercase(title);
    hyphenate_spaces(lower.as_str())
}

/// An empty post dated `date` at the time of day `time`, every transient
/// field at its default.
pub open spec fn empty_spec(date: CalendarDate, time: Seq<char>) -> PostView {
    PostView {
        body: Seq::empty(),
        parsed: markdown_items(Seq::empty()),
        name: Seq::empty(),
        description: Seq::empty(),
        tags: Seq::empty(),
        image_url: Seq::empty(),
        savepath: None,
        selected_tab: TabId::Content,
        date,
        show_picker: false,
        time,
        show_picker_time: false,
        image: None,
    }
}

/// The editing state of a freshly loaded post: the fields copied, the tags
/// joined with commas, the instant split into date and time of day, every
/// transient field at its default.
pub open spec fn loaded_spec(p: PersistedView) -> PostView {
    PostView {
        body: p.body,
        parsed: markdown_items(p.body),
        name: p.title,
        description: p.summary,
        tags: tags_text_spec(p.tags),
        image_url: p.image_url,
        savepath: None,
        selected_tab: TabId::Content,
        date: CalendarDate {
            year: p.timestamp.year,
            month: p.timestamp.month,
            day: p.timestamp.day,
        },
        show_picker: false,
        time: clock_text_spec(
            p.timestamp.hour as nat,
            p.timestamp.minute as nat,
            p.timestamp.second as nat,
        ),
        show_picker_time: false,
        image: None,
    }
}

/// The post that the editing state saves as, or `None` where its date and
/// time of day form no valid instant. A part of the time of day that is
/// missing or no number counts as 0.
pub open spec fn saved_spec(s: PostView) -> Option<PersistedView> {
    let (h, m, sec) = clock_fields_spec(s.time);
    if valid_datetime(
        s.date.year as int,
        s.date.month as int,
        s.date.day as int,
        h as int,
        m as int,
        sec as int,
    ) {
        Some(
            PersistedView {
                title: s.name,
                body: s.body,
                image_url: s.image_url,
                summary: s.description,
                timestamp: Timestamp {
                    year: s.date.year,
                    month: s.date.month,
                    day: s.date.day,
                    hour: h,
                    minute: m,
                    second: sec,
                },
                tags: tags_from_text_spec(s.tags),
            },
        )
    } else {
        None
    }
}

/// The state after an event, before the preview is derived again.
pub open spec fn apply_spec(s: PostView, e: Event) -> PostView {
    match e {
        Event::EditContent(t) => PostView { body: t@, ..s },
        Event::EditTitle(t) => PostView { name: t@, ..s },
        Event::EditSummary(t) => PostView { description: t@, ..s },
        Event::EditTags(t) => PostView { tags: t@, ..s },
        Event::EditImageUrl(t) => PostView { image_url: t@, ..s },
        Event::ImageFetched(img) => PostView { image: opt_bytes(img), ..s },
        Event::TabSelected(id) => PostView { selected_tab: id, ..s },
        Event::FileLoaded(path, p) => PostView {
            savepath: Some(path@),
            selected_tab: s.selected_tab,
            ..loaded_spec(p@)
        },
        Event::FileUnreadable(path, date, time) => PostView {
            savepath: Some(path@),
            selected_tab: s.selected_tab,
            ..empty_spec(date, time@)
        },
        Event::SavePathChosen(p) => if s.savepath is None && p is Some {
            PostView { savepath: opt_text(p), ..s }
        } else {
            s
        },
        Event::SaveAsPathChosen(p) => if p is Some {
            PostView { savepath: opt_text(p), ..s }
        } else {
            s
        },
        Event::ChooseDate => PostView { show_picker: true, ..s },
        Event::SubmitDate(d) => PostView { date: d, show_picker: false, ..s },
        Event::CancelDate => PostView { show_picker: false, ..s },
        Event::ChooseTime => PostView { show_picker_time: true, ..s },
        Event::SubmitTime(t) => PostView { time: t@, show_picker_time: false, ..s },
        Event::CancelTime => PostView { show_picker_time: false, ..s },
        _ => s,
    }
}

/// The state after an event: the event's change, then the preview derived
/// from the body.
pub open spec fn step_spec(s: PostView, e: Event) -> PostView {
    let t = apply_spec(s, e);
    PostView { parsed: markdown_items(t.body), ..t }
}

/// The state after a run of events, processed in order.
pub open spec fn run_spec(s: PostView, es: Seq<Event>) -> PostView
    decreases es.len(),
{
    if es.len() == 0 {
        s
    } else {
        step_spec(run_spec(s, es.drop_last()), es.last())
    }
}

/// The action that saves the state `s`: a write of its saved form to its
/// path, or the report that its date and time form no instant.
pub open spec fn is_write_of(s: PostView, a: Action) -> bool {
    match saved_spec(s) {
        Some(p) => a matches Action::Write(path, q) && Some(path@) == s.savepath && q@ == p
            && q.wf(),
        None => a is InvalidTimestamp,
    }
}

/// The action that an event in state `s` calls for.
pub open spec fn action_spec(s: PostView, e: Event, a: Action) -> bool {
    let t = step_spec(s, e);
    match e {
        Event::LinkClicked(u) => a matches Action::OpenLink(v) && v@ == u@,
        Event::SubmitImageUrl(u) => a matches Action::FetchImage(v) && v@ == u@,
        Event::LoadFile => a is PickFileToLoad,
        Event::SaveFile => if s.savepath is None {
            a matches Action::PickSavePath(n) && n@ == suggested_name_spec(s.name)
        } else {
            is_write_of(t, a)
        },
        Event::SaveToFile => a matches Action::PickSaveAsPath(n) && n@ == suggested_name_spec(
            s.name,
        ),
        Event::SavePathChosen(_) => if t.savepath is Some {
            is_write_of(t, a)
        } else {
            a is Nothing
        },
        Event::SaveAsPathChosen(p) => if p is Some {
            is_write_of(t, a)
        } else {
            a is Nothing
        },
        _ => a is Nothing,
    }
}

/// The command that a key pressed with the platform's command modifier
/// stands for: `s` saves, `s` with shift saves under a new path, `o` loads.
pub open spec fn shortcut_spec(key: Seq<char>, command: bool, shift: bool) -> Option<Event> {
    if command && key == seq!['s'] {
        if shift {
            Some(Event::SaveToFile)
        } else {
            Some(Event::SaveFile)
        }
    } else if command && key == seq!['o'] {
        Some(Event::LoadFile)
    } else {
        None
    }
}

/// The event that a key press stands for, if any.
pub fn shortcut(key: &str, command: bool, shift: bool) -> (r: Option<Event>)
    ensures
        r == shortcut_spec(key@, command, shift),
{
    if !command || key.unicode_len() != 1 {
        return None;
    }
    let c = key.get_char(0);
    proof {
        assert(key@ == seq!['s'] <==> c == 's') by {
            if c == 's' {
                assert(key@ =~= seq!['s']);
            }
        }
        assert(key@ == seq!['o'] <==> c == 'o') by {
            if c == 'o' {
                assert(key@ =~= seq!['o']);
            }
        }
    }
    if c == 's' {
        if shift {
            Some(Event::SaveToFile)
        } else {
            Some(Event::SaveFile)
        }
    } else if c == 'o' {
        Some(Event::LoadFile)
    } else {
        None
    }
}

/// Saving a freshly loaded post gives the post back unchanged, where it has
/// at least one tag and its tags are trimmed and hold no comma.
pub proof fn lemma_load_save_round_trip(p: PersistedView)
    requires
        p.timestamp.wf(),
        p.tags.len() > 0,
        forall|i: int| 0 <= i < p.tags.len() ==> is_trimmed(#[trigger] p.tags[i]),
        forall|i: int| 0 <= i < p.tags.len() ==> !(#[trigger] p.tags[i]).contains(','),
    ensures
        saved_spec(loaded_spec(p)) == Some(p),
{
    lemma_tags_round_trip(p.tags);
    let t = p.timestamp;
    lemma_clock_text_round_trip(t.hour as nat, t.minute as nat, t.second as nat);
}

/// Selecting the content tab twice leaves the same state as selecting it once.
pub proof fn lemma_select_content_tab_idempotent(s: PostView)
    ensures
        step_spec(step_spec(s, Event::TabSelected(TabId::Content)), Event::TabSelected(TabId::Content))
            == step_spec(s, Event::TabSelected(TabId::Content)),
{
}

/// After any run of events from a state whose preview is current, the
/// preview is that of the current body.
pub proof fn lemma_preview_follows_body(s: PostView, es: Seq<Event>)
    requires
        s.wf(),
    ensures
        run_spec(s, es).wf(),
    decreases es.len(),
{
    if es.len() > 0 {
        lemma_preview_follows_body(s, es.drop_last());
    }
}

/// Setting the tags text to the empty text and then saving gives exactly one
/// tag, the empty one.
pub proof fn lemma_empty_tags_save_one_empty_tag(s: PostView, t: String)
    requires
        t@.len() == 0,
    ensures
        saved_spec(step_spec(s, Event::EditTags(t))) matches Some(p) ==> p.tags == seq![Seq::<char>::empty()],
{
    crate::document::lemma_empty_tags_text();
    assert(t@ =~= Seq::<char>::empty());
}

/// Where the submitted time of day holds no colon, minute and second are 0
/// and the hour is the number it holds, or 0 where it is no number.
pub proof fn lemma_time_hour_only(s: PostView, t: String)
    requires
        !t@.contains(':'),
    ensures
        ({
            let (h, m, sec) = clock_fields_spec(step_spec(s, Event::SubmitTime(t)).time);
            &&& m == 0
            &&& sec == 0
            &&& h == match crate::text::parse_u32_spec(t@) {
                Some(v) => v,
                None => 0,
            }
        }),
{
    crate::clock::lemma_clock_fields_single(t@);
}

impl Post {
    /// An empty post dated `date` at the time of day `time`.
    pub fn empty(date: CalendarDate, time: String) -> (r: Post)
        ensures
            r@ == empty_spec(date, time@),
    {
        let body = String::new();
        let parsed = parse_markdown(body.as_str());
        Post {
            body,
            parsed,
            name: String::new(),
            description: String::new(),
            tags: String::new(),
            image_url: String::new(),
            savepath: None,
            selected_tab: TabId::Content,
            date,
            show_picker: false,
            time,
            show_picker_time: false,
            image: None,
        }
    }

    /// The editing state of a loaded post.
    pub fn from_persisted(p: PersistedPost) -> (r: Post)
        requires
            p.wf(),
        ensures
            r@ == loaded_spec(p@),
    {
        let ghost pv = p@;
        let tags = tags_text(&p.tags);
        let time = clock_text(p.timestamp.hour, p.timestamp.minute, p.timestamp.second);
        let date = p.timestamp.date();
        let parsed = parse_markdown(p.body.as_str());
        let r = Post {
            body: p.body,
            parsed,
            name: p.title,
            description: p.summary,
            tags,
            image_url: p.image_url,
            savepath: None,
            selected_tab: TabId::Content,
            date,
            show_picker: false,
            time,
            show_picker_time: false,
            image: None,
        };
        proof {
            assert(r@ =~= loaded_spec(pv));
        }
        r
    }

    /// Tells whether this state can be saved: whether its date and time of
    /// day (each missing or unreadable part as 0) form a valid instant.
    pub fn can_save(&self) -> (r: bool)
        ensures
            r == saved_spec(self@) is Some,
    {
        let (h, m, s) = clock_fields(self.time.as_str());
        Timestamp::from_parts(self.date.year, self.date.month, self.date.day, h, m, s).is_some()
    }

    /// The post that this state saves as. Its date and time of day must form
    /// a valid instant: the conversion has no way to fail.
    pub fn to_persisted(&self) -> (r: PersistedPost)
        requires
            saved_spec(self@) is Some,
        ensures
            Some(r@) == saved_spec(self@),
            r.wf(),
    {
        let (h, m, s) = clock_fields(self.time.as_str());
        let timestamp = Timestamp {
            year: self.date.year,
            month: self.date.month,
            day: self.date.day,
            hour: h,
            minute: m,
            second: s,
        };
        let p = PersistedPost {
            title: self.name.clone(),
            body: self.body.clone(),
            image_url: self.image_url.clone(),
            summary: self.description.clone(),
            timestamp,
            tags: tags_from_text(self.tags.as_str()),
        };
        proof {
            assert(p@ =~= saved_spec(self@)->0);
        }
        p
    }

    fn write_action(&self) -> (a: Action)
        requires
            self@.savepath is Some,
        ensures
            is_write_of(self@, a),
    {
        if !self.can_save() {
            return Action::InvalidTimestamp;
        }
        match &self.savepath {
            Some(path) => Action::Write(path.clone(), self.to_persisted()),
            None => Action::Nothing,
        }
    }

    /// Processes one event: changes the state as the event says, derives
    /// the preview from the body again, and returns the outside work to do.
    pub fn update(&mut self, event: Event) -> (a: Action)
        requires
            event matches Event::FileLoaded(_, p) ==> p.wf(),
        ensures
            final(self)@ == step_spec(old(self)@, event),
            final(self)@.wf(),
            action_spec(old(self)@, event, a),
    {
        let ghost s0 = self@;
        let ghost e = event;
        let mut action = Action::Nothing;
        let mut save_now = false;
        match event {
            Event::LinkClicked(url) => {
                action = Action::OpenLink(url);
            },
            Event::EditContent(text) => {
                self.body = text;
            },
            Event::EditTitle(t) => {
                self.name = t;
            },
            Event::EditSummary(t) => {
                self.description = t;
            },
            Event::EditTags(t) => {
                self.tags = t;
            },
            Event::EditImageUrl(t) => {
                self.image_url = t;
            },
            Event::SubmitImageUrl(url) => {
                action = Action::FetchImage(url);
            },
            Event::ImageFetched(img) => {
                self.image = img;
            },
            Event::TabSelected(id) => {
                self.selected_tab = id;
            },
            Event::LoadFile => {
                action = Action::PickFileToLoad;
            },
            Event::FileLoaded(path, p) => {
                let tab = self.selected_tab;
                let mut next = Post::from_persisted(p);
                next.savepath = Some(path);
                next.selected_tab = tab;
                *self = next;
            },
            Event::FileUnreadable(path, date, time) => {
                let tab = self.selected_tab;
                let mut next = Post::empty(date, time);
                next.savepath = Some(path);
                next.selected_tab = tab;
                *self = next;
            },
            Event::SaveFile => {
                if self.savepath.is_none() {
                    action = Action::PickSavePath(suggested_file_name(self.name.as_str()));
                } else {
                    save_now = true;
                }
            },
            Event::SavePathChosen(path) => {
                if self.savepath.is_none() && path.is_some() {
                    self.savepath = path;
                }
                save_now = self.savepath.is_some();
            },
            Event::SaveToFile => {
                action = Action::PickSaveAsPath(suggested_file_name(self.name.as_str()));
            },
            Event::SaveAsPathChosen(path) => {
                save_now = path.is_some();
                if save_now {
                    self.savepath = path;
                }
            },
            Event::ChooseDate => {
                self.show_picker = true;
            },
            Event::SubmitDate(date) => {
                self.date = date;
                self.show_picker = false;
            },
            Event::CancelDate => {
                self.show_picker = false;
            },
            Event::ChooseTime => {
                self.show_picker_time = true;
            },
            Event::SubmitTime(time) => {
                self.time = time;
                self.show_picker_time = false;
            },
            Event::CancelTime => {
                self.show_picker_time = false;
            },
        }
        self.parsed = parse_markdown(self.body.as_str());
        proof {
            assert(self@ =~= step_spec(s0, e));
        }
        if save_now {
            action = self.write_action();
        }
        action
    }
}

} // verus!
