//! The bot's own command catalog.
use vstd::prelude::*;

use crate::distance::{chars_of, lev, levenshtein_within, min2, DISTANCE_CAP};
use crate::resolver::{outcome_in, resolve, Catalog, Resolution, parameters_of};
use crate::tokenizer::string_views;

verus! {

/// The number of chat commands.
pub const COMMAND_COUNT: usize = 39;

/// The character that marks a chat line as a command attempt.
pub const COMMAND_PREFIX: char = '!';

/// Whether `message` is a command attempt: it starts with `COMMAND_PREFIX`.
pub open spec fn is_command_attempt(message: Seq<char>) -> bool {
    message.len() > 0 && message[0] == COMMAND_PREFIX
}

/// The text after the command prefix, for a command attempt.
pub fn command_text(message: &str) -> (r: Option<&str>)
    ensures
        r is Some <==> is_command_attempt(message@),
        r matches Some(t) ==> t@ == message@.drop_first(),
{
    let n = message.unicode_len();
    if n > 0 && message.get_char(0) == COMMAND_PREFIX {
        Some(message.substring_char(1, n))
    } else {
        None
    }
}

/// The commands that the bot answers in chat, in the order they are matched.
#[derive(PartialEq, Eq, Structural, Debug, Clone, Copy)]
pub enum ChatCommands {
    Hello,
    Meat,
    Processing,
    Discord,
    Throne,
    Owlyfans,
    HowToQuote,
    Quote,
    Commands,
    Ram,
    Github,
    Lurk,
    Lurking,
    Loork,
    Luwurk,
    DotFiles,
    NeoFetch,
    Editor,
    Distro,
    Projects,
    Pronouns,
    Fimsh,
    Break,
    Throbber,
    VioletCrumble,
    SO,
    ShoutOut,
    QOD,
    QuestionOfTheDay,
    Theme,
    Bones,
    Train,
    Bread,
    Rank,
    Ranks,
    OwlBeCringe,
    Holee,
    Spill,
    Heckies,
}

/// Every command, in catalog order.
pub open spec fn command_list() -> Seq<ChatCommands> {
    seq![
        ChatCommands::Hello,
        ChatCommands::Meat,
        ChatCommands::Processing,
        ChatCommands::Discord,
        ChatCommands::Throne,
        ChatCommands::Owlyfans,
        ChatCommands::HowToQuote,
        ChatCommands::Quote,
        ChatCommands::Commands,
        ChatCommands::Ram,
        ChatCommands::Github,
        ChatCommands::Lurk,
        ChatCommands::Lurking,
        ChatCommands::Loork,
        ChatCommands::Luwurk,
        ChatCommands::DotFiles,
        ChatCommands::NeoFetch,
        ChatCommands::Editor,
        ChatCommands::Distro,
        ChatCommands::Projects,
        ChatCommands::Pronouns,
        ChatCommands::Fimsh,
        ChatCommands::Break,
        ChatCommands::Throbber,
        ChatCommands::VioletCrumble,
        ChatCommands::SO,
        ChatCommands::ShoutOut,
        ChatCommands::QOD,
        ChatCommands::QuestionOfTheDay,
        ChatCommands::Theme,
        ChatCommands::Bones,
        ChatCommands::Train,
        ChatCommands::Bread,
        ChatCommands::Rank,
        ChatCommands::Ranks,
        ChatCommands::OwlBeCringe,
        ChatCommands::Holee,
        ChatCommands::Spill,
        ChatCommands::Heckies,
    ]
}

/// The command at position `i` of the catalog.
pub open spec fn command_at(i: int) -> ChatCommands {
    command_list()[i]
}

/// The canonical names of all commands, in catalog order.
pub open spec fn command_names() -> Seq<Seq<char>> {
    Seq::new(COMMAND_COUNT as nat, |i: int| command_at(i).spec_name())
}

/// The entries whose lone suggestion is not offered: the shout-out commands,
/// whose short names come close to too many unrelated words.
pub open spec fn ignorable_commands() -> Seq<usize> {
    seq![ChatCommands::SO.spec_index(), ChatCommands::ShoutOut.spec_index()]
}

/// The entries whose suggestion counts as a match: a near miss of `lurk` is
/// taken as `lurk`.
pub open spec fn alias_commands() -> Seq<(usize, usize)> {
    seq![(ChatCommands::Lurk.spec_index(), ChatCommands::Lurk.spec_index())]
}

/// How `line` resolves among the chat commands: the command taken as meant,
/// and the one that is suggested; never both.
pub open spec fn command_outcome(line: Seq<char>) -> (Option<ChatCommands>, Option<ChatCommands>) {
    match outcome_in(command_names(), ignorable_commands(), alias_commands(), line) {
        Resolution::Matched(i) => (Some(command_at(i as int)), None),
        Resolution::Suggested(i) => (None, Some(command_at(i as int))),
        Resolution::NoMatch => (None, None),
    }
}

/// `min(lev(a, b), DISTANCE_CAP + 1 - spent)` when `spent` edits of the
/// budget are already used up, and `spent` itself once it is over the budget.
pub open spec fn budgeted_distance(a: Seq<char>, b: Seq<char>, spent: u32) -> nat {
    if spent > DISTANCE_CAP {
        spent as nat
    } else {
        min2(lev(a, b), (DISTANCE_CAP + 1 - spent) as nat)
    }
}

impl ChatCommands {
    /// The position of the command in the catalog.
    pub open spec fn spec_index(self) -> usize {
        match self {
            ChatCommands::Hello => 0,
            ChatCommands::Meat => 1,
            ChatCommands::Processing => 2,
            ChatCommands::Discord => 3,
            ChatCommands::Throne => 4,
            ChatCommands::Owlyfans => 5,
            ChatCommands::HowToQuote => 6,
            ChatCommands::Quote => 7,
            ChatCommands::Commands => 8,
            ChatCommands::Ram => 9,
            ChatCommands::Github => 10,
            ChatCommands::Lurk => 11,
            ChatCommands::Lurking => 12,
            ChatCommands::Loork => 13,
            ChatCommands::Luwurk => 14,
            ChatCommands::DotFiles => 15,
            ChatCommands::NeoFetch => 16,
            ChatCommands::Editor => 17,
            ChatCommands::Distro => 18,
            ChatCommands::Projects => 19,
            ChatCommands::Pronouns => 20,
            ChatCommands::Fimsh => 21,
            ChatCommands::Break => 22,
            ChatCommands::Throbber => 23,
            ChatCommands::VioletCrumble => 24,
            ChatCommands::SO => 25,
            ChatCommands::ShoutOut => 26,
            ChatCommands::QOD => 27,
            ChatCommands::QuestionOfTheDay => 28,
            ChatCommands::Theme => 29,
            ChatCommands::Bones => 30,
            ChatCommands::Train => 31,
            ChatCommands::Bread => 32,
            ChatCommands::Rank => 33,
            ChatCommands::Ranks => 34,
            ChatCommands::OwlBeCringe => 35,
            ChatCommands::Holee => 36,
            ChatCommands::Spill => 37,
            ChatCommands::Heckies => 38,
        }
    }

    /// The canonical name that chat input is matched against.
    pub open spec fn spec_name(self) -> Seq<char> {
        match self {
            ChatCommands::Hello => "hello"@,
            ChatCommands::Meat => "meat"@,
            ChatCommands::Processing => "processing"@,
            ChatCommands::Discord => "discord"@,
            ChatCommands::Throne => "throne"@,
            ChatCommands::Owlyfans => "owlyfans"@,
            ChatCommands::HowToQuote => "howtoquote"@,
            ChatCommands::Quote => "quote"@,
            ChatCommands::Commands => "commands"@,
            ChatCommands::Ram => "ram"@,
            ChatCommands::Github => "github"@,
            ChatCommands::Lurk => "lurk"@,
            ChatCommands::Lurking => "lurking"@,
            ChatCommands::Loork => "loork"@,
            ChatCommands::Luwurk => "luwurk"@,
            ChatCommands::DotFiles => "dotfiles"@,
            ChatCommands::NeoFetch => "neofetch"@,
            ChatCommands::Editor => "editor"@,
            ChatCommands::Distro => "distro"@,
            ChatCommands::Projects => "projects"@,
            ChatCommands::Pronouns => "pronouns"@,
            ChatCommands::Fimsh => "fimsh"@,
            ChatCommands::Break => "break"@,
            ChatCommands::Throbber => "throbber"@,
            ChatCommands::VioletCrumble => "violetcrumble"@,
            ChatCommands::SO => "so"@,
            ChatCommands::ShoutOut => "shoutout"@,
            ChatCommands::QOD => "qod"@,
            ChatCommands::QuestionOfTheDay => "questionoftheday"@,
            ChatCommands::Theme => "theme"@,
            ChatCommands::Bones => "bones"@,
            ChatCommands::Train => "train"@,
            ChatCommands::Bread => "bread"@,
            ChatCommands::Rank => "rank"@,
            ChatCommands::Ranks => "ranks"@,
            ChatCommands::OwlBeCringe => "owlbecringe"@,
            ChatCommands::Holee => "holee"@,
            ChatCommands::Spill => "spill"@,
            ChatCommands::Heckies => "heckies"@,
        }
    }

    /// The name as shown to chat.
    pub open spec fn spec_label(self) -> Seq<char> {
        match self {
            ChatCommands::Hello => "Hello"@,
            ChatCommands::Meat => "Meat"@,
            ChatCommands::Processing => "Processing"@,
            ChatCommands::Discord => "Discord"@,
            ChatCommands::Throne => "Throne"@,
            ChatCommands::Owlyfans => "Owlyfans"@,
            ChatCommands::HowToQuote => "HowToQuote"@,
            ChatCommands::Quote => "Quote"@,
            ChatCommands::Commands => "Commands"@,
            ChatCommands::Ram => "Ram"@,
            ChatCommands::Github => "Github"@,
            ChatCommands::Lurk => "Lurk"@,
            ChatCommands::Lurking => "Lurking"@,
            ChatCommands::Loork => "Loork"@,
            ChatCommands::Luwurk => "Luwurk"@,
            ChatCommands::DotFiles => "DotFiles"@,
            ChatCommands::NeoFetch => "NeoFetch"@,
            ChatCommands::Editor => "Editor"@,
            ChatCommands::Distro => "Distro"@,
            ChatCommands::Projects => "Projects"@,
            ChatCommands::Pronouns => "Pronouns"@,
            ChatCommands::Fimsh => "Fimsh"@,
            ChatCommands::Break => "Break"@,
            ChatCommands::Throbber => "Throbber"@,
            ChatCommands::VioletCrumble => "VioletCrumble"@,
            ChatCommands::SO => "SO"@,
            ChatCommands::ShoutOut => "ShoutOut"@,
            ChatCommands::QOD => "QOD"@,
            ChatCommands::QuestionOfTheDay => "QuestionOfTheDay"@,
            ChatCommands::Theme => "Theme"@,
            ChatCommands::Bones => "Bones"@,
            ChatCommands::Train => "Train"@,
            ChatCommands::Bread => "Bread"@,
            ChatCommands::Rank => "Rank"@,
            ChatCommands::Ranks => "Ranks"@,
            ChatCommands::OwlBeCringe => "OwlBeCringe"@,
            ChatCommands::Holee => "Holee"@,
            ChatCommands::Spill => "Spill"@,
            ChatCommands::Heckies => "Heckies"@,
        }
    }

    /// The position of the command in the catalog.
    pub fn index(&self) -> (r: usize)
        ensures
            r == self.spec_index(),
            r < COMMAND_COUNT,
            command_at(r as int) == *self,
    {
        match self {
            ChatCommands::Hello => 0,
            ChatCommands::Meat => 1,
            ChatCommands::Processing => 2,
            ChatCommands::Discord => 3,
            ChatCommands::Throne => 4,
            ChatCommands::Owlyfans => 5,
            ChatCommands::HowToQuote => 6,
            ChatCommands::Quote => 7,
            ChatCommands::Commands => 8,
            ChatCommands::Ram => 9,
            ChatCommands::Github => 10,
            ChatCommands::Lurk => 11,
            ChatCommands::Lurking => 12,
            ChatCommands::Loork => 13,
            ChatCommands::Luwurk => 14,
            ChatCommands::DotFiles => 15,
            ChatCommands::NeoFetch => 16,
            ChatCommands::Editor => 17,
            ChatCommands::Distro => 18,
            ChatCommands::Projects => 19,
            ChatCommands::Pronouns => 20,
            ChatCommands::Fimsh => 21,
            ChatCommands::Break => 22,
            ChatCommands::Throbber => 23,
            ChatCommands::VioletCrumble => 24,
            ChatCommands::SO => 25,
            ChatCommands::ShoutOut => 26,
            ChatCommands::QOD => 27,
            ChatCommands::QuestionOfTheDay => 28,
            ChatCommands::Theme => 29,
            ChatCommands::Bones => 30,
            ChatCommands::Train => 31,
            ChatCommands::Bread => 32,
            ChatCommands::Rank => 33,
            ChatCommands::Ranks => 34,
            ChatCommands::OwlBeCringe => 35,
            ChatCommands::Holee => 36,
            ChatCommands::Spill => 37,
            ChatCommands::Heckies => 38,
        }
    }

    /// The command at position `i` of the catalog.
    pub fn from_index(i: usize) -> (r: ChatCommands)
        requires
            i < COMMAND_COUNT,
        ensures
            r == command_at(i as int),
            r.spec_index() == i,
    {
        match i {
            0 => ChatCommands::Hello,
            1 => ChatCommands::Meat,
            2 => ChatCommands::Processing,
            3 => ChatCommands::Discord,
            4 => ChatCommands::Throne,
            5 => ChatCommands::Owlyfans,
            6 => ChatCommands::HowToQuote,
            7 => ChatCommands::Quote,
            8 => ChatCommands::Commands,
            9 => ChatCommands::Ram,
            10 => ChatCommands::Github,
            11 => ChatCommands::Lurk,
            12 => ChatCommands::Lurking,
            13 => ChatCommands::Loork,
            14 => ChatCommands::Luwurk,
            15 => ChatCommands::DotFiles,
            16 => ChatCommands::NeoFetch,
            17 => ChatCommands::Editor,
            18 => ChatCommands::Distro,
            19 => ChatCommands::Projects,
            20 => ChatCommands::Pronouns,
            21 => ChatCommands::Fimsh,
            22 => ChatCommands::Break,
            23 => ChatCommands::Throbber,
            24 => ChatCommands::VioletCrumble,
            25 => ChatCommands::SO,
            26 => ChatCommands::ShoutOut,
            27 => ChatCommands::QOD,
            28 => ChatCommands::QuestionOfTheDay,
            29 => ChatCommands::Theme,
            30 => ChatCommands::Bones,
            31 => ChatCommands::Train,
            32 => ChatCommands::Bread,
            33 => ChatCommands::Rank,
            34 => ChatCommands::Ranks,
            35 => ChatCommands::OwlBeCringe,
            36 => ChatCommands::Holee,
            37 => ChatCommands::Spill,
            38 => ChatCommands::Heckies,
            _ => ChatCommands::Heckies,
        }
    }

    /// The canonical, lower-case name of the command.
    pub fn name(&self) -> (r: &'static str)
        ensures
            r@ == self.spec_name(),
    {
        match self {
            ChatCommands::Hello => "hello",
            ChatCommands::Meat => "meat",
            ChatCommands::Processing => "processing",
            ChatCommands::Discord => "discord",
            ChatCommands::Throne => "throne",
            ChatCommands::Owlyfans => "owlyfans",
            ChatCommands::HowToQuote => "howtoquote",
            ChatCommands::Quote => "quote",
            ChatCommands::Commands => "commands",
            ChatCommands::Ram => "ram",
            ChatCommands::Github => "github",
            ChatCommands::Lurk => "lurk",
            ChatCommands::Lurking => "lurking",
            ChatCommands::Loork => "loork",
            ChatCommands::Luwurk => "luwurk",
            ChatCommands::DotFiles => "dotfiles",
            ChatCommands::NeoFetch => "neofetch",
            ChatCommands::Editor => "editor",
            ChatCommands::Distro => "distro",
            ChatCommands::Projects => "projects",
            ChatCommands::Pronouns => "pronouns",
            ChatCommands::Fimsh => "fimsh",
            ChatCommands::Break => "break",
            ChatCommands::Throbber => "throbber",
            ChatCommands::VioletCrumble => "violetcrumble",
            ChatCommands::SO => "so",
            ChatCommands::ShoutOut => "shoutout",
            ChatCommands::QOD => "qod",
            ChatCommands::QuestionOfTheDay => "questionoftheday",
            ChatCommands::Theme => "theme",
            ChatCommands::Bones => "bones",
            ChatCommands::Train => "train",
            ChatCommands::Bread => "bread",
            ChatCommands::Rank => "rank",
            ChatCommands::Ranks => "ranks",
            ChatCommands::OwlBeCringe => "owlbecringe",
            ChatCommands::Holee => "holee",
            ChatCommands::Spill => "spill",
            ChatCommands::Heckies => "heckies",
        }
    }

    /// The name of the command as shown to chat, as in `!HowToQuote`.
    pub fn label(&self) -> (r: &'static str)
        ensures
            r@ == self.spec_label(),
    {
        match self {
            ChatCommands::Hello => "Hello",
            ChatCommands::Meat => "Meat",
            ChatCommands::Processing => "Processing",
            ChatCommands::Discord => "Discord",
            ChatCommands::Throne => "Throne",
            ChatCommands::Owlyfans => "Owlyfans",
            ChatCommands::HowToQuote => "HowToQuote",
            ChatCommands::Quote => "Quote",
            ChatCommands::Commands => "Commands",
            ChatCommands::Ram => "Ram",
            ChatCommands::Github => "Github",
            ChatCommands::Lurk => "Lurk",
            ChatCommands::Lurking => "Lurking",
            ChatCommands::Loork => "Loork",
            ChatCommands::Luwurk => "Luwurk",
            ChatCommands::DotFiles => "DotFiles",
            ChatCommands::NeoFetch => "NeoFetch",
            ChatCommands::Editor => "Editor",
            ChatCommands::Distro => "Distro",
            ChatCommands::Projects => "Projects",
            ChatCommands::Pronouns => "Pronouns",
            ChatCommands::Fimsh => "Fimsh",
            ChatCommands::Break => "Break",
            ChatCommands::Throbber => "Throbber",
            ChatCommands::VioletCrumble => "VioletCrumble",
            ChatCommands::SO => "SO",
            ChatCommands::ShoutOut => "ShoutOut",
            ChatCommands::QOD => "QOD",
            ChatCommands::QuestionOfTheDay => "QuestionOfTheDay",
            ChatCommands::Theme => "Theme",
            ChatCommands::Bones => "Bones",
            ChatCommands::Train => "Train",
            ChatCommands::Bread => "Bread",
            ChatCommands::Rank => "Rank",
            ChatCommands::Ranks => "Ranks",
            ChatCommands::OwlBeCringe => "OwlBeCringe",
            ChatCommands::Holee => "Holee",
            ChatCommands::Spill => "Spill",
            ChatCommands::Heckies => "Heckies",
        }
    }


    /// Every command, in catalog order.
    pub fn all_variants() -> (r: Vec<ChatCommands>)
        ensures
            r@ == command_list(),
    {
        let r = vec![
            ChatCommands::Hello,
            ChatCommands::Meat,
            ChatCommands::Processing,
            ChatCommands::Discord,
            ChatCommands::Throne,
            ChatCommands::Owlyfans,
            ChatCommands::HowToQuote,
            ChatCommands::Quote,
            ChatCommands::Commands,
            ChatCommands::Ram,
            ChatCommands::Github,
            ChatCommands::Lurk,
            ChatCommands::Lurking,
            ChatCommands::Loork,
            ChatCommands::Luwurk,
            ChatCommands::DotFiles,
            ChatCommands::NeoFetch,
            ChatCommands::Editor,
            ChatCommands::Distro,
            ChatCommands::Projects,
            ChatCommands::Pronouns,
            ChatCommands::Fimsh,
            ChatCommands::Break,
            ChatCommands::Throbber,
            ChatCommands::VioletCrumble,
            ChatCommands::SO,
            ChatCommands::ShoutOut,
            ChatCommands::QOD,
            ChatCommands::QuestionOfTheDay,
            ChatCommands::Theme,
            ChatCommands::Bones,
            ChatCommands::Train,
            ChatCommands::Bread,
            ChatCommands::Rank,
            ChatCommands::Ranks,
            ChatCommands::OwlBeCringe,
            ChatCommands::Holee,
            ChatCommands::Spill,
            ChatCommands::Heckies,
        ];
        assert(r@ == command_list());
        r
    }

    /// The catalog of chat commands: their names in order, the shout-out
    /// commands as ignorable entries, and `lurk` as an alias of itself.
    pub fn catalog() -> (r: Catalog)
        ensures
            string_views(r.names@) == command_names(),
            r.ignorable@ == ignorable_commands(),
            r.aliases@ == alias_commands(),
            r.entries_exist(),
    {
        let mut names: Vec<String> = Vec::new();
        let mut i: usize = 0;
        while i < COMMAND_COUNT
            invariant
                i <= COMMAND_COUNT,
                string_views(names@) == Seq::new(i as nat, |k: int| command_at(k).spec_name()),
            decreases COMMAND_COUNT - i,
        {
            let name = ChatCommands::from_index(i).name();
            let ghost before = string_views(names@);
            names.push(name.to_owned());
            assert(string_views(names@) =~= before.push(name@));
            i = i + 1;
            assert(string_views(names@) =~= Seq::new(i as nat, |k: int| command_at(k).spec_name()));
        }
        let ignorable = vec![ChatCommands::SO.index(), ChatCommands::ShoutOut.index()];
        let aliases = vec![(ChatCommands::Lurk.index(), ChatCommands::Lurk.index())];
        Catalog { names, ignorable, aliases }
    }

    /// Resolves a chat line, with its command prefix already removed, among
    /// the chat commands. Returns the command taken as meant, the command to
    /// suggest (at most one of the two), and the parameters after the command
    /// word as they were typed.
    pub fn is_command(possible_command: &str) -> (r: (
        Option<ChatCommands>,
        Option<ChatCommands>,
        Vec<String>,
    ))
        ensures
            (r.0, r.1) == command_outcome(possible_command@),
            string_views(r.2@) == parameters_of(possible_command@),
    {
        let catalog = ChatCommands::catalog();
        let res = resolve(possible_command, &catalog);
        let parameters = res.parameters;
        match res.outcome {
            Resolution::Matched(i) => (Some(ChatCommands::from_index(i)), None, parameters),
            Resolution::Suggested(i) => (None, Some(ChatCommands::from_index(i)), parameters),
            Resolution::NoMatch => (None, None, parameters),
        }
    }

    /// The edit distance between `a` and `b` when `temp_distance` edits are
    /// already counted against the budget of `DISTANCE_CAP`: exact while it
    /// fits the remaining budget, one more than that budget otherwise, and
    /// `temp_distance` itself once the budget is already exceeded.
    pub fn levenshtein_distance(a: &str, b: &str, temp_distance: u32) -> (r: u32)
        ensures
            r as nat == budgeted_distance(a@, b@, temp_distance),
    {
        if temp_distance > DISTANCE_CAP {
            return temp_distance;
        }
        let va = chars_of(a);
        let vb = chars_of(b);
        levenshtein_within(&va, &vb, DISTANCE_CAP + 1 - temp_distance)
    }
}

} // verus!
