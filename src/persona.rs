use std::collections::HashMap;
use std::rc::Rc;

use vstd::prelude::*;

verus! {

/// `s` with each occurrence of `from`, found left to right and without
/// overlap, replaced by `to`.
pub open spec fn replace_spec(s: Seq<char>, from: Seq<char>, to: Seq<char>) -> Seq<char>
    decreases s.len(),
{
    if s.len() == 0 {
        Seq::empty()
    } else if 0 < from.len() <= s.len() && s.take(from.len() as int) == from {
        to + replace_spec(s.skip(from.len() as int), from, to)
    } else {
        seq![s[0]] + replace_spec(s.skip(1), from, to)
    }
}

/// Relies on `str::replace`, which replaces every match of a non-empty
/// pattern, left to right.
#[verifier::external_body]
fn replace(s: &str, from: &str, to: &str) -> (r: String)
    requires
        from@.len() > 0,
    ensures
        r@ == replace_spec(s@, from@, to@),
{
    s.replace(from, to)
}

pub open spec fn opt_view(o: Option<&str>) -> Option<Seq<char>> {
    match o {
        Some(s) => Some(s@),
        None => None,
    }
}

/// `s` with `{{char}}` standing for `self_name` and, when a partner is
/// known, `{{user}}` standing for the partner's name.
pub open spec fn names_replaced(s: Seq<char>, self_name: Seq<char>, partner_name: Option<Seq<char>>) -> Seq<char> {
    let with_char = replace_spec(s, "{{char}}"@, self_name);
    match partner_name {
        Some(p) => replace_spec(with_char, "{{user}}"@, p),
        None => with_char,
    }
}

/// Fills the `{{char}}` and `{{user}}` placeholders of a persona's text.
pub fn replace_names(s: &str, self_name: &str, partner_name: Option<&str>) -> (r: String)
    ensures
        r@ == names_replaced(s@, self_name@, opt_view(partner_name)),
{
    proof {
        reveal_strlit("{{char}}");
        reveal_strlit("{{user}}");
    }
    let replaced_char_name = replace(s, "{{char}}", self_name);
    match partner_name {
        Some(name) => replace(replaced_char_name.as_str(), "{{user}}", name),
        None => replaced_char_name,
    }
}

/// What a conversation needs of a persona: its name, the system prompt it
/// speaks under, and the greetings it may open with.
pub trait CharData {
    spec fn spec_name(&self) -> Seq<char>;

    spec fn spec_system_prompt(&self, partner_name: Option<Seq<char>>) -> Seq<char>;

    spec fn spec_greetings(&self, partner_name: Option<Seq<char>>) -> Seq<Seq<char>>;

    fn name(&self) -> (r: &str)
        ensures
            r@ == self.spec_name(),
    ;

    fn system_prompt(&self, partner_name: Option<&str>) -> (r: String)
        ensures
            r@ == self.spec_system_prompt(opt_view(partner_name)),
    ;

    fn greetings(&self, partner_name: Option<&str>) -> (r: Vec<String>)
        ensures
            r@.map_values(|g: String| g@) == self.spec_greetings(opt_view(partner_name)),
    ;
}

/// A persona given by a name and a free description, with no greetings.
#[derive(Debug, Clone)]
pub struct Basic {
    pub name: String,
    pub description: String,
}

impl CharData for Basic {
    open spec fn spec_name(&self) -> Seq<char> {
        self.name@
    }

    open spec fn spec_system_prompt(&self, partner_name: Option<Seq<char>>) -> Seq<char> {
        names_replaced(self.description@, self.name@, partner_name)
    }

    open spec fn spec_greetings(&self, partner_name: Option<Seq<char>>) -> Seq<Seq<char>> {
        Seq::empty()
    }

    fn name(&self) -> (r: &str) {
        self.name.as_str()
    }

    fn system_prompt(&self, partner_name: Option<&str>) -> (r: String) {
        replace_names(self.description.as_str(), self.name.as_str(), partner_name)
    }

    fn greetings(&self, partner_name: Option<&str>) -> (r: Vec<String>) {
        let r: Vec<String> = Vec::new();
        proof {
            assert(r@.map_values(|g: String| g@) =~= Seq::<Seq<char>>::empty());
        }
        r
    }
}

impl Basic {
    pub fn new(name: &str, description: &str) -> (r: Rc<Self>)
        ensures
            r.name@ == name@,
            r.description@ == description@,
    {
        Rc::new(Basic { name: name.to_owned(), description: description.to_owned() })
    }
}

#[verifier::external_type_specification]
#[verifier::external_body]
pub struct ExValue(serde_json::Value);

/// Free-form extension data of a card, kept as it was read.
pub type Extensions = HashMap<String, serde_json::Value>;

/// A character card: a persona described field by field.
#[derive(Debug, Clone)]
pub struct Card {
    /// Identifier of the card format, `chara_card_v2`.
    pub spec_name: String,
    /// Version of the card format, `2.0`.
    pub spec_version: String,
    pub data: CharacterData,
}

/// The character's own fields.
#[derive(Debug, Clone)]
pub struct CharacterData {
    pub name: String,
    pub description: String,
    pub personality: String,
    pub scenario: String,
    /// The character's first message.
    pub first_mes: String,
    /// Example dialogues.
    pub mes_example: String,
    pub creator_notes: String,
    pub system_prompt: String,
    pub post_history_instructions: String,
    pub alternate_greetings: Vec<String>,
    pub tags: Vec<String>,
    pub creator: String,
    pub character_version: String,
    pub extensions: Extensions,
    pub character_book: Option<CharacterBook>,
}

/// One entry of a character's lorebook.
#[derive(Debug, Clone)]
pub struct Entry {
    pub keys: Vec<String>,
    pub content: String,
    pub extensions: Extensions,
    pub enabled: bool,
    pub insertion_order: i32,
    pub case_sensitive: Option<bool>,
    pub name: Option<String>,
    pub priority: Option<i32>,
    pub id: Option<i32>,
    pub comment: Option<String>,
    pub selective: Option<bool>,
    pub secondary_keys: Option<Vec<String>>,
    pub constant: Option<bool>,
    pub position: Option<String>,
}

/// A character's lorebook.
#[derive(Debug, Clone)]
pub struct CharacterBook {
    pub name: Option<String>,
    pub description: Option<String>,
    pub scan_depth: Option<i32>,
    pub token_budget: Option<i32>,
    pub recursive_scanning: Option<bool>,
    pub extensions: Extensions,
    pub entries: Vec<Entry>,
}

/// The non-empty parts, in order, with `sep` between two of them.
pub open spec fn join_nonempty(parts: Seq<Seq<char>>, sep: Seq<char>) -> Seq<char>
    decreases parts.len(),
{
    if parts.len() == 0 {
        Seq::empty()
    } else {
        let earlier = join_nonempty(parts.drop_last(), sep);
        let p = parts.last();
        if p.len() == 0 {
            earlier
        } else if earlier.len() == 0 {
            p
        } else {
            earlier + sep + p
        }
    }
}

/// Adds `part` to `joined` the way `join_nonempty` adds its last part.
fn join_part(joined: &mut String, part: &str, sep: &str)
    ensures
        final(joined)@ == (if part@.len() == 0 {
            old(joined)@
        } else if old(joined)@.len() == 0 {
            part@
        } else {
            old(joined)@ + sep@ + part@
        }),
{
    if !part.is_empty() {
        if !joined.as_str().is_empty() {
            joined.append(sep);
        }
        joined.append(part);
    }
}

impl Card {
    /// The prompt fields a card contributes, in the order they are joined.
    pub open spec fn prompt_fields(&self) -> Seq<Seq<char>> {
        seq![
            self.data.system_prompt@,
            self.data.description@,
            self.data.scenario@,
            self.data.mes_example@,
        ]
    }

    /// The greetings a card opens with: its first message, then the
    /// alternate ones.
    pub open spec fn raw_greetings(&self) -> Seq<Seq<char>> {
        seq![self.data.first_mes@] + self.data.alternate_greetings@.map_values(|g: String| g@)
    }

    /// A card holding only a name and a description.
    pub fn basic(name: &str, description: &str) -> (r: Self)
        ensures
            r.spec_name@ == "chara_card_v2"@,
            r.spec_version@ == "2.0"@,
            r.data.name@ == name@,
            r.data.description@ == description@,
            r.prompt_fields() == seq![Seq::<char>::empty(), description@, Seq::<char>::empty(), Seq::<char>::empty()],
            r.raw_greetings() == seq![Seq::<char>::empty()],
    {
        let r = Card {
            spec_name: "chara_card_v2".to_owned(),
            spec_version: "2.0".to_owned(),
            data: CharacterData {
                name: name.to_owned(),
                description: description.to_owned(),
                personality: String::new(),
                scenario: String::new(),
                first_mes: String::new(),
                mes_example: String::new(),
                creator_notes: String::new(),
                system_prompt: String::new(),
                post_history_instructions: String::new(),
                alternate_greetings: Vec::new(),
                tags: Vec::new(),
                creator: String::new(),
                character_version: String::new(),
                extensions: HashMap::new(),
                character_book: None,
            },
        };
        proof {
            assert(r.prompt_fields() =~= seq![Seq::<char>::empty(), description@, Seq::<char>::empty(), Seq::<char>::empty()]);
            assert(r.raw_greetings() =~= seq![Seq::<char>::empty()]);
        }
        r
    }
}

impl CharData for Card {
    open spec fn spec_name(&self) -> Seq<char> {
        self.data.name@
    }

    /// The non-empty prompt fields joined by `/n`, with the names filled in.
    open spec fn spec_system_prompt(&self, partner_name: Option<Seq<char>>) -> Seq<char> {
        names_replaced(join_nonempty(self.prompt_fields(), "/n"@), self.data.name@, partner_name)
    }

    /// Each greeting with the names filled in.
    open spec fn spec_greetings(&self, partner_name: Option<Seq<char>>) -> Seq<Seq<char>> {
        self.raw_greetings().map_values(|g: Seq<char>| names_replaced(g, self.data.name@, partner_name))
    }

    fn name(&self) -> (r: &str) {
        self.data.name.as_str()
    }

    fn system_prompt(&self, partner_name: Option<&str>) -> (r: String) {
        let ghost f = self.prompt_fields();
        let mut joined = String::new();
        proof {
            assert(join_nonempty(f.take(0), "/n"@) =~= Seq::<char>::empty());
            assert(joined@ =~= join_nonempty(f.take(0), "/n"@));
            assert(f.take(1).drop_last() =~= f.take(0));
            assert(f.take(2).drop_last() =~= f.take(1));
            assert(f.take(3).drop_last() =~= f.take(2));
            assert(f.take(4).drop_last() =~= f.take(3));
            assert(f.take(4) =~= f);
        }
        join_part(&mut joined, self.data.system_prompt.as_str(), "/n");
        assert(joined@ == join_nonempty(f.take(1), "/n"@));
        join_part(&mut joined, self.data.description.as_str(), "/n");
        assert(joined@ == join_nonempty(f.take(2), "/n"@));
        join_part(&mut joined, self.data.scenario.as_str(), "/n");
        assert(joined@ == join_nonempty(f.take(3), "/n"@));
        join_part(&mut joined, self.data.mes_example.as_str(), "/n");
        assert(joined@ == join_nonempty(f, "/n"@));
        replace_names(joined.as_str(), self.data.name.as_str(), partner_name)
    }

    fn greetings(&self, partner_name: Option<&str>) -> (r: Vec<String>) {
        let ghost want = self.spec_greetings(opt_view(partner_name));
        let mut greetings: Vec<String> = Vec::new();
        greetings.push(replace_names(self.data.first_mes.as_str(), self.data.name.as_str(), partner_name));
        let mut i: usize = 0;
        while i < self.data.alternate_greetings.len()
            invariant
                i <= self.data.alternate_greetings@.len(),
                want == self.spec_greetings(opt_view(partner_name)),
                greetings@.len() == i + 1,
                forall|j: int| 0 <= j <= i ==> (#[trigger] greetings@[j])@ == want[j],
            decreases self.data.alternate_greetings@.len() - i,
        {
            let g = replace_names(
                self.data.alternate_greetings[i].as_str(),
                self.data.name.as_str(),
                partner_name,
            );
            greetings.push(g);
            i += 1;
        }
        proof {
            assert(greetings@.map_values(|g: String| g@) =~= want);
        }
        greetings
    }
}

/// Which of the candidates was modified last, given each one's modification
/// time: the latest, and of equal times the one listed last; `None` when
/// there is no candidate.
pub fn most_recent(times: &Vec<u128>) -> (r: Option<usize>)
    ensures
        times@.len() == 0 <==> r is None,
        r matches Some(i) ==> {
            &&& i < times@.len()
            &&& forall|j: int| 0 <= j < times@.len() ==> times@[j] <= times@[i as int]
            &&& forall|j: int| i < j < times@.len() ==> times@[j] < times@[i as int]
        },
{
    let mut best: Option<usize> = None;
    let mut i: usize = 0;
    while i < times.len()
        invariant
            i <= times@.len(),
            i == 0 <==> best is None,
            best matches Some(b) ==> {
                &&& b < i
                &&& forall|j: int| 0 <= j < i ==> times@[j] <= times@[b as int]
                &&& forall|j: int| b < j < i ==> times@[j] < times@[b as int]
            },
        decreases times@.len() - i,
    {
        match best {
            Some(b) => {
                if times[i] >= times[b] {
                    best = Some(i);
                }
            },
            None => {
                best = Some(i);
            },
        }
        i += 1;
    }
    best
}

/// The largest centred square of a `width` by `height` picture, as
/// `(x offset, y offset, side)`.
pub fn square_crop(width: u32, height: u32) -> (r: (u32, u32, u32))
    ensures
        r.2 == if width < height { width } else { height },
        r.0 == (width - r.2) / 2,
        r.1 == (height - r.2) / 2,
{
    let size = if width < height { width } else { height };
    ((width - size) / 2, (height - size) / 2, size)
}

} // verus!
