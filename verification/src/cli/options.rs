//! The options of the command line and the walk that finds them.
//!
//! The first word that is neither an option nor an option's value starts the child command. All
//! words from there on belong to the command, whatever they look like.

use crate::text::{
    add_text, chars_of, concat3, find_char, opt_text, same_text, split_once, string_of, texts,
};
use vstd::prelude::*;

verus! {

/// An option of the command line.
#[derive(Clone, Copy, Debug, PartialEq, Eq, Structural)]
pub enum Opt {
    Port,
    Interface,
    SocketOwner,
    Credential,
    AuthHeader,
    Uid,
    Gid,
    Signal,
    Cwd,
    Index,
    BasePath,
    PingInterval,
    SrvBufSize,
    Ipv6,
    Ssl,
    SslCert,
    SslKey,
    SslCa,
    UrlArg,
    Writable,
    TerminalType,
    Title,
    ClientOption,
    CheckOrigin,
    MaxClients,
    Once,
    ExitNoConn,
    Browser,
    Debug,
    Version,
    Help,
    AuthUrl,
    AuthRequestHeader,
    AuthUserHeader,
    AuthMethod,
    AuthCacheTtl,
}

/// The option behind a letter.
pub open spec fn short_option(c: char) -> Option<Opt> {
    match c {
        'p' => Some(Opt::Port),
        'i' => Some(Opt::Interface),
        'U' => Some(Opt::SocketOwner),
        'c' => Some(Opt::Credential),
        'H' => Some(Opt::AuthHeader),
        'u' => Some(Opt::Uid),
        'g' => Some(Opt::Gid),
        's' => Some(Opt::Signal),
        'w' => Some(Opt::Cwd),
        'I' => Some(Opt::Index),
        'b' => Some(Opt::BasePath),
        'P' => Some(Opt::PingInterval),
        'f' => Some(Opt::SrvBufSize),
        '6' => Some(Opt::Ipv6),
        'S' => Some(Opt::Ssl),
        'C' => Some(Opt::SslCert),
        'K' => Some(Opt::SslKey),
        'A' => Some(Opt::SslCa),
        'a' => Some(Opt::UrlArg),
        'W' => Some(Opt::Writable),
        'T' => Some(Opt::TerminalType),
        't' => Some(Opt::ClientOption),
        'O' => Some(Opt::CheckOrigin),
        'm' => Some(Opt::MaxClients),
        'o' => Some(Opt::Once),
        'q' => Some(Opt::ExitNoConn),
        'B' => Some(Opt::Browser),
        'd' => Some(Opt::Debug),
        'v' => Some(Opt::Version),
        'h' => Some(Opt::Help),
        'R' => Some(Opt::AuthUrl),
        'F' => Some(Opt::AuthRequestHeader),
        'N' => Some(Opt::AuthUserHeader),
        _ => None,
    }
}

/// The option behind a long name.
pub open spec fn long_option(name: Seq<char>) -> Option<Opt> {
    if name == "port"@ {
        Some(Opt::Port)
    } else if name == "interface"@ {
        Some(Opt::Interface)
    } else if name == "socket-owner"@ {
        Some(Opt::SocketOwner)
    } else if name == "credential"@ {
        Some(Opt::Credential)
    } else if name == "auth-header"@ {
        Some(Opt::AuthHeader)
    } else if name == "uid"@ {
        Some(Opt::Uid)
    } else if name == "gid"@ {
        Some(Opt::Gid)
    } else if name == "signal"@ {
        Some(Opt::Signal)
    } else if name == "cwd"@ {
        Some(Opt::Cwd)
    } else if name == "index"@ {
        Some(Opt::Index)
    } else if name == "base-path"@ {
        Some(Opt::BasePath)
    } else if name == "ping-interval"@ {
        Some(Opt::PingInterval)
    } else if name == "srv-buf-size"@ {
        Some(Opt::SrvBufSize)
    } else if name == "ipv6"@ {
        Some(Opt::Ipv6)
    } else if name == "ssl"@ {
        Some(Opt::Ssl)
    } else if name == "ssl-cert"@ {
        Some(Opt::SslCert)
    } else if name == "ssl-key"@ {
        Some(Opt::SslKey)
    } else if name == "ssl-ca"@ {
        Some(Opt::SslCa)
    } else if name == "url-arg"@ {
        Some(Opt::UrlArg)
    } else if name == "writable"@ {
        Some(Opt::Writable)
    } else if name == "terminal-type"@ {
        Some(Opt::TerminalType)
    } else if name == "title"@ {
        Some(Opt::Title)
    } else if name == "client-option"@ {
        Some(Opt::ClientOption)
    } else if name == "check-origin"@ {
        Some(Opt::CheckOrigin)
    } else if name == "max-clients"@ {
        Some(Opt::MaxClients)
    } else if name == "once"@ {
        Some(Opt::Once)
    } else if name == "exit-no-conn"@ {
        Some(Opt::ExitNoConn)
    } else if name == "browser"@ {
        Some(Opt::Browser)
    } else if name == "debug"@ {
        Some(Opt::Debug)
    } else if name == "version"@ {
        Some(Opt::Version)
    } else if name == "help"@ {
        Some(Opt::Help)
    } else if name == "auth-url"@ {
        Some(Opt::AuthUrl)
    } else if name == "auth-request-header"@ {
        Some(Opt::AuthRequestHeader)
    } else if name == "auth-user-header"@ {
        Some(Opt::AuthUserHeader)
    } else if name == "auth-method"@ {
        Some(Opt::AuthMethod)
    } else if name == "auth-cache-ttl"@ {
        Some(Opt::AuthCacheTtl)
    } else {
        None
    }
}

/// Whether an option comes with a value.
pub open spec fn takes_value(opt: Opt) -> bool {
    match opt {
        Opt::Ipv6 => false,
        Opt::Ssl => false,
        Opt::UrlArg => false,
        Opt::Writable => false,
        Opt::CheckOrigin => false,
        Opt::Once => false,
        Opt::ExitNoConn => false,
        Opt::Browser => false,
        Opt::Version => false,
        Opt::Help => false,
        _ => true,
    }
}

/// An option as it occurs on the command line.
pub struct Parsed {
    pub opt: Opt,
    pub value: Option<String>,
}

/// What an occurrence of an option holds.
#[verifier::ext_equal]
pub struct ParsedView {
    pub opt: Opt,
    pub value: Option<Seq<char>>,
}

impl View for Parsed {
    type V = ParsedView;

    open spec fn view(&self) -> ParsedView {
        ParsedView { opt: self.opt, value: opt_text(self.value) }
    }
}

/// What a list of occurrences holds.
pub open spec fn parsed_view(list: Seq<Parsed>) -> Seq<ParsedView> {
    list.map_values(|p: Parsed| p@)
}

/// What kind of word an argument is.
#[verifier::ext_equal]
pub enum Word {
    /// `--`, behind which the command starts.
    Separator,
    /// `--name` or `--name=value`.
    Long { name: Seq<char>, inline: Option<Seq<char>> },
    /// `-abc`: letters, the last of which may be followed by its value.
    Cluster(Seq<char>),
    /// Anything else: the command starts here.
    Plain,
}

/// The kind of an argument.
pub open spec fn word(arg: Seq<char>) -> Word {
    if arg == seq!['-', '-'] {
        Word::Separator
    } else if arg.len() >= 2 && arg[0] == '-' && arg[1] == '-' {
        match split_once(arg.skip(2), '=') {
            Some((name, value)) => Word::Long { name, inline: Some(value) },
            None => Word::Long { name: arg.skip(2), inline: None },
        }
    } else if arg.len() >= 2 && arg[0] == '-' {
        Word::Cluster(arg.skip(1))
    } else {
        Word::Plain
    }
}

/// What one word says: the options in it, the remarks about what it should not hold, and the
/// option at its end that still wants a value, with the complaint for when none follows.
#[verifier::ext_equal]
pub struct Reading {
    pub items: Seq<ParsedView>,
    pub notes: Seq<Seq<char>>,
    pub pending: Option<(Opt, Seq<char>)>,
}

/// A word that says nothing.
pub open spec fn blank_reading() -> Reading {
    Reading { items: Seq::empty(), notes: Seq::empty(), pending: None }
}

/// A reading behind what was read before it.
pub open spec fn after(items: Seq<ParsedView>, notes: Seq<Seq<char>>, rest: Reading) -> Reading {
    Reading { items: items + rest.items, notes: notes + rest.notes, pending: rest.pending }
}

/// What a long option says.
pub open spec fn read_long(name: Seq<char>, inline: Option<Seq<char>>) -> Reading {
    match long_option(name) {
        None => Reading {
            items: Seq::empty(),
            notes: seq!["ttyd: unrecognized option '--"@ + name + "'"@],
            pending: None,
        },
        Some(opt) => if !takes_value(opt) {
            Reading { items: seq![ParsedView { opt, value: None }], notes: Seq::empty(), pending: None }
        } else if inline is Some {
            Reading {
                items: seq![ParsedView { opt, value: inline }],
                notes: Seq::empty(),
                pending: None,
            }
        } else {
            Reading {
                items: Seq::empty(),
                notes: Seq::empty(),
                pending: Some((opt, "ttyd: option '--"@ + name + "' requires an argument"@)),
            }
        },
    }
}

/// What a cluster of letters says.
pub open spec fn read_cluster(letters: Seq<char>) -> Reading
    decreases letters.len(),
{
    if letters.len() == 0 {
        blank_reading()
    } else {
        let rest = letters.drop_first();
        match short_option(letters[0]) {
            None => after(
                Seq::empty(),
                seq!["ttyd: invalid option -- '"@ + seq![letters[0]] + "'"@],
                read_cluster(rest),
            ),
            Some(opt) => if !takes_value(opt) {
                after(seq![ParsedView { opt, value: None }], Seq::empty(), read_cluster(rest))
            } else if rest.len() > 0 {
                Reading {
                    items: seq![ParsedView { opt, value: Some(rest) }],
                    notes: Seq::empty(),
                    pending: None,
                }
            } else {
                Reading {
                    items: Seq::empty(),
                    notes: Seq::empty(),
                    pending: Some(
                        (opt, "ttyd: option requires an argument -- '"@ + seq![letters[0]] + "'"@),
                    ),
                }
            },
        }
    }
}

/// What an argument says; nothing when it is no option.
pub open spec fn reading(arg: Seq<char>) -> Option<Reading> {
    match word(arg) {
        Word::Long { name, inline } => Some(read_long(name, inline)),
        Word::Cluster(letters) => Some(read_cluster(letters)),
        _ => None,
    }
}

/// Where the command starts when the walk has come to argument `i`.
pub open spec fn command_start(args: Seq<Seq<char>>, i: int) -> int
    decreases args.len() + 1 - i,
{
    if i >= args.len() {
        args.len() as int
    } else {
        match reading(args[i]) {
            Some(r) => if r.pending is Some {
                command_start(args, i + 2)
            } else {
                command_start(args, i + 1)
            },
            None => if word(args[i]) is Separator {
                i + 1
            } else {
                i
            },
        }
    }
}

/// The options found by a walk, the remarks on the way, and the complaint that ended it if an
/// option lacked its value.
#[verifier::ext_equal]
pub struct Collected {
    pub items: Seq<ParsedView>,
    pub notes: Seq<Seq<char>>,
    pub failure: Option<Seq<char>>,
}

/// The options in the arguments from `i` up to `end`.
pub open spec fn collected(args: Seq<Seq<char>>, end: int, i: int) -> Collected
    decreases end - i,
{
    if i >= end {
        Collected { items: Seq::empty(), notes: Seq::empty(), failure: None }
    } else {
        match reading(args[i]) {
            None => Collected { items: Seq::empty(), notes: Seq::empty(), failure: None },
            Some(r) => match r.pending {
                None => behind(r.items, r.notes, collected(args, end, i + 1)),
                Some((opt, complaint)) => if i + 1 >= end {
                    Collected { items: r.items, notes: r.notes, failure: Some(complaint) }
                } else {
                    behind(
                        r.items.push(ParsedView { opt, value: Some(args[i + 1]) }),
                        r.notes,
                        collected(args, end, i + 2),
                    )
                },
            },
        }
    }
}

/// A walk behind what was found before it.
pub open spec fn behind(items: Seq<ParsedView>, notes: Seq<Seq<char>>, rest: Collected) -> Collected {
    Collected { items: items + rest.items, notes: notes + rest.notes, failure: rest.failure }
}

/// The option behind a letter.
fn find_short(c: char) -> (r: Option<Opt>)
    ensures
        r == short_option(c),
{
    match c {
        'p' => Some(Opt::Port),
        'i' => Some(Opt::Interface),
        'U' => Some(Opt::SocketOwner),
        'c' => Some(Opt::Credential),
        'H' => Some(Opt::AuthHeader),
        'u' => Some(Opt::Uid),
        'g' => Some(Opt::Gid),
        's' => Some(Opt::Signal),
        'w' => Some(Opt::Cwd),
        'I' => Some(Opt::Index),
        'b' => Some(Opt::BasePath),
        'P' => Some(Opt::PingInterval),
        'f' => Some(Opt::SrvBufSize),
        '6' => Some(Opt::Ipv6),
        'S' => Some(Opt::Ssl),
        'C' => Some(Opt::SslCert),
        'K' => Some(Opt::SslKey),
        'A' => Some(Opt::SslCa),
        'a' => Some(Opt::UrlArg),
        'W' => Some(Opt::Writable),
        'T' => Some(Opt::TerminalType),
        't' => Some(Opt::ClientOption),
        'O' => Some(Opt::CheckOrigin),
        'm' => Some(Opt::MaxClients),
        'o' => Some(Opt::Once),
        'q' => Some(Opt::ExitNoConn),
        'B' => Some(Opt::Browser),
        'd' => Some(Opt::Debug),
        'v' => Some(Opt::Version),
        'h' => Some(Opt::Help),
        'R' => Some(Opt::AuthUrl),
        'F' => Some(Opt::AuthRequestHeader),
        'N' => Some(Opt::AuthUserHeader),
        _ => None,
    }
}

/// The option behind a long name.
fn find_long(name: &str) -> (r: Option<Opt>)
    ensures
        r == long_option(name@),
{
    if same_text(name, "port") {
        Some(Opt::Port)
    } else if same_text(name, "interface") {
        Some(Opt::Interface)
    } else if same_text(name, "socket-owner") {
        Some(Opt::SocketOwner)
    } else if same_text(name, "credential") {
        Some(Opt::Credential)
    } else if same_text(name, "auth-header") {
        Some(Opt::AuthHeader)
    } else if same_text(name, "uid") {
        Some(Opt::Uid)
    } else if same_text(name, "gid") {
        Some(Opt::Gid)
    } else if same_text(name, "signal") {
        Some(Opt::Signal)
    } else if same_text(name, "cwd") {
        Some(Opt::Cwd)
    } else if same_text(name, "index") {
        Some(Opt::Index)
    } else if same_text(name, "base-path") {
        Some(Opt::BasePath)
    } else if same_text(name, "ping-interval") {
        Some(Opt::PingInterval)
    } else if same_text(name, "srv-buf-size") {
        Some(Opt::SrvBufSize)
    } else if same_text(name, "ipv6") {
        Some(Opt::Ipv6)
    } else if same_text(name, "ssl") {
        Some(Opt::Ssl)
    } else if same_text(name, "ssl-cert") {
        Some(Opt::SslCert)
    } else if same_text(name, "ssl-key") {
        Some(Opt::SslKey)
    } else if same_text(name, "ssl-ca") {
        Some(Opt::SslCa)
    } else if same_text(name, "url-arg") {
        Some(Opt::UrlArg)
    } else if same_text(name, "writable") {
        Some(Opt::Writable)
    } else if same_text(name, "terminal-type") {
        Some(Opt::TerminalType)
    } else if same_text(name, "title") {
        Some(Opt::Title)
    } else if same_text(name, "client-option") {
        Some(Opt::ClientOption)
    } else if same_text(name, "check-origin") {
        Some(Opt::CheckOrigin)
    } else if same_text(name, "max-clients") {
        Some(Opt::MaxClients)
    } else if same_text(name, "once") {
        Some(Opt::Once)
    } else if same_text(name, "exit-no-conn") {
        Some(Opt::ExitNoConn)
    } else if same_text(name, "browser") {
        Some(Opt::Browser)
    } else if same_text(name, "debug") {
        Some(Opt::Debug)
    } else if same_text(name, "version") {
        Some(Opt::Version)
    } else if same_text(name, "help") {
        Some(Opt::Help)
    } else if same_text(name, "auth-url") {
        Some(Opt::AuthUrl)
    } else if same_text(name, "auth-request-header") {
        Some(Opt::AuthRequestHeader)
    } else if same_text(name, "auth-user-header") {
        Some(Opt::AuthUserHeader)
    } else if same_text(name, "auth-method") {
        Some(Opt::AuthMethod)
    } else if same_text(name, "auth-cache-ttl") {
        Some(Opt::AuthCacheTtl)
    } else {
        None
    }
}

impl Opt {
    /// Whether the option comes with a value.
    pub fn takes_arg(self) -> (r: bool)
        ensures
            r == takes_value(self),
    {
        match self {
            Opt::Ipv6 => false,
            Opt::Ssl => false,
            Opt::UrlArg => false,
            Opt::Writable => false,
            Opt::CheckOrigin => false,
            Opt::Once => false,
            Opt::ExitNoConn => false,
            Opt::Browser => false,
            Opt::Version => false,
            Opt::Help => false,
            _ => true,
        }
    }
}

/// Appends an occurrence of an option to a list.
fn add_parsed(list: &mut Vec<Parsed>, opt: Opt, value: Option<String>)
    ensures
        parsed_view(final(list)@) == parsed_view(old(list)@).push(
            ParsedView { opt, value: opt_text(value) },
        ),
{
    list.push(Parsed { opt, value });
    assert(parsed_view(list@) =~= parsed_view(old(list)@).push(
        ParsedView { opt, value: opt_text(value) },
    ));
}

/// One character as a text.
fn char_text(c: char) -> (r: String)
    ensures
        r@ == seq![c],
{
    let mut out = String::new();
    out.push(c);
    assert(out@ =~= seq![c]);
    out
}

/// Reads a long option. The result is the option that still wants a value.
fn read_long_word(
    long: &[char],
    items: &mut Vec<Parsed>,
    notes: &mut Vec<String>,
) -> (r: Option<(Opt, String)>)
    ensures
        ({
            let (name, inline) = match split_once(long@, '=') {
                Some((name, value)) => (name, Some(value)),
                None => (long@, None),
            };
            let read = read_long(name, inline);
            &&& parsed_view(final(items)@) == parsed_view(old(items)@) + read.items
            &&& texts(final(notes)@) == texts(old(notes)@) + read.notes
            &&& pending_view(r) == read.pending
        }),
{
    let k: usize = find_char(long, '=');
    let inline: Option<String> = if k < long.len() {
        let tail = vstd::slice::slice_subrange(long, k + 1, long.len());
        assert(tail@ == long@.skip(k + 1));
        Some(string_of(tail))
    } else {
        None
    };
    let head = vstd::slice::slice_subrange(long, 0, k);
    assert(head@ == long@.take(k as int));
    proof {
        if k == long@.len() {
            assert(head@ == long@);
        }
    }
    let name = string_of(head);
    let ghost before_items = parsed_view(items@);
    let ghost before_notes = texts(notes@);
    match find_long(name.as_str()) {
        None => {
            add_text(notes, concat3("ttyd: unrecognized option '--", name.as_str(), "'"));
            assert(parsed_view(items@) =~= before_items + Seq::empty());
            assert(texts(notes@) =~= before_notes + seq![
                "ttyd: unrecognized option '--"@ + name@ + "'"@,
            ]);
            None
        },
        Some(opt) => {
            if !opt.takes_arg() {
                add_parsed(items, opt, None);
                assert(texts(notes@) =~= before_notes + Seq::empty());
                assert(parsed_view(items@) =~= before_items + seq![
                    ParsedView { opt, value: None },
                ]);
                None
            } else {
                assert(texts(notes@) =~= before_notes + Seq::empty());
                match inline {
                    Some(value) => {
                        let ghost v = value@;
                        add_parsed(items, opt, Some(value));
                        assert(parsed_view(items@) =~= before_items + seq![
                            ParsedView { opt, value: Some(v) },
                        ]);
                        None
                    },
                    None => {
                        assert(parsed_view(items@) =~= before_items + Seq::empty());
                        Some(
                            (
                                opt,
                                concat3("ttyd: option '--", name.as_str(), "' requires an argument"),
                            ),
                        )
                    },
                }
            }
        },
    }
}

/// An option that still wants a value, with its complaint.
pub open spec fn pending_view(p: Option<(Opt, String)>) -> Option<(Opt, Seq<char>)> {
    match p {
        Some((opt, complaint)) => Some((opt, complaint@)),
        None => None,
    }
}

/// Reads a cluster of letters. The result is the option that still wants a value.
fn read_cluster_word(
    letters: &[char],
    items: &mut Vec<Parsed>,
    notes: &mut Vec<String>,
) -> (r: Option<(Opt, String)>)
    ensures
        ({
            let read = read_cluster(letters@);
            &&& parsed_view(final(items)@) == parsed_view(old(items)@) + read.items
            &&& texts(final(notes)@) == texts(old(notes)@) + read.notes
            &&& pending_view(r) == read.pending
        }),
{
    let ghost read = read_cluster(letters@);
    let ghost before_items = parsed_view(items@);
    let ghost before_notes = texts(notes@);
    let ghost mut seen_items = Seq::<ParsedView>::empty();
    let ghost mut seen_notes = Seq::<Seq<char>>::empty();
    let mut k: usize = 0;
    proof {
        assert(letters@.skip(0) == letters@);
        assert(read =~= after(seen_items, seen_notes, read));
        assert(before_items =~= before_items + seen_items);
        assert(before_notes =~= before_notes + seen_notes);
    }
    while k < letters.len()
        invariant
            k <= letters@.len(),
            read == read_cluster(letters@),
            read == after(seen_items, seen_notes, read_cluster(letters@.skip(k as int))),
            parsed_view(items@) == before_items + seen_items,
            texts(notes@) == before_notes + seen_notes,
            before_items == parsed_view(old(items)@),
            before_notes == texts(old(notes)@),
        decreases letters@.len() - k,
    {
        let c = letters[k];
        let ghost here = letters@.skip(k as int);
        let ghost rest = letters@.skip(k + 1);
        proof {
            assert(here[0] == c);
            assert(here.drop_first() =~= rest);
        }
        match find_short(c) {
            None => {
                let shown = char_text(c);
                add_text(notes, concat3("ttyd: invalid option -- '", shown.as_str(), "'"));
                proof {
                    let note = "ttyd: invalid option -- '"@ + seq![c] + "'"@;
                    let next = seen_notes.push(note);
                    assert(texts(notes@) =~= before_notes + next);
                    assert(after(seen_items, next, read_cluster(rest)) =~= read) by {
                        assert(seen_notes + (seq![note] + read_cluster(rest).notes) =~= next
                            + read_cluster(rest).notes);
                        assert(seen_items + (Seq::empty() + read_cluster(rest).items) =~= seen_items
                            + read_cluster(rest).items);
                    }
                    seen_notes = next;
                }
            },
            Some(opt) => {
                if !opt.takes_arg() {
                    add_parsed(items, opt, None);
                    proof {
                        let item = ParsedView { opt, value: None };
                        let next = seen_items.push(item);
                        assert(parsed_view(items@) =~= before_items + next);
                        assert(after(next, seen_notes, read_cluster(rest)) =~= read) by {
                            assert(seen_items + (seq![item] + read_cluster(rest).items) =~= next
                                + read_cluster(rest).items);
                            assert(seen_notes + (Seq::empty() + read_cluster(rest).notes)
                                =~= seen_notes + read_cluster(rest).notes);
                        }
                        seen_items = next;
                    }
                } else if k + 1 < letters.len() {
                    let tail = vstd::slice::slice_subrange(letters, k + 1, letters.len());
                    assert(tail@ == rest);
                    let value = string_of(tail);
                    add_parsed(items, opt, Some(value));
                    proof {
                        let item = ParsedView { opt, value: Some(rest) };
                        assert(parsed_view(items@) =~= before_items + (seen_items + seq![item]));
                        assert(texts(notes@) =~= before_notes + (seen_notes + Seq::empty()));
                    }
                    return None;
                } else {
                    proof {
                        assert(parsed_view(items@) =~= before_items + (seen_items + Seq::empty()));
                        assert(texts(notes@) =~= before_notes + (seen_notes + Seq::empty()));
                    }
                    let shown = char_text(c);
                    return Some(
                        (opt, concat3("ttyd: option requires an argument -- '", shown.as_str(), "'")),
                    );
                }
            },
        }
        k += 1;
    }
    proof {
        assert(letters@.skip(k as int).len() == 0);
        assert(parsed_view(items@) =~= before_items + (seen_items + Seq::empty()));
        assert(texts(notes@) =~= before_notes + (seen_notes + Seq::empty()));
    }
    None
}

/// What the walk does at an argument.
#[derive(Clone, Copy, Debug, PartialEq, Eq, Structural)]
pub enum Kind {
    /// `--`: the command starts behind it.
    Separator,
    /// An option or several.
    Option,
    /// The command starts here.
    Plain,
}

/// The kind of an argument.
pub open spec fn kind(arg: Seq<char>) -> Kind {
    match word(arg) {
        Word::Separator => Kind::Separator,
        Word::Plain => Kind::Plain,
        _ => Kind::Option,
    }
}

/// Reads one argument. The result is what the walk does at it and the option that still wants a
/// value.
fn read_word(
    arg: &str,
    items: &mut Vec<Parsed>,
    notes: &mut Vec<String>,
) -> (r: (Kind, Option<(Opt, String)>))
    ensures
        r.0 == kind(arg@),
        match reading(arg@) {
            Some(read) => {
                &&& parsed_view(final(items)@) == parsed_view(old(items)@) + read.items
                &&& texts(final(notes)@) == texts(old(notes)@) + read.notes
                &&& pending_view(r.1) == read.pending
            },
            None => {
                &&& final(items)@ == old(items)@
                &&& final(notes)@ == old(notes)@
                &&& r.1 is None
            },
        },
{
    let chars = chars_of(arg);
    if chars.len() >= 2 && chars[0] == '-' && chars[1] == '-' {
        if chars.len() == 2 {
            assert(arg@ =~= seq!['-', '-']);
            return (Kind::Separator, None);
        }
        assert(arg@ != seq!['-', '-']);
        let long = vstd::slice::slice_subrange(chars.as_slice(), 2, chars.len());
        assert(long@ == arg@.skip(2));
        (Kind::Option, read_long_word(long, items, notes))
    } else {
        assert(arg@ != seq!['-', '-']) by {
            assert(seq!['-', '-'][0] == '-');
            assert(seq!['-', '-'][1] == '-');
        }
        if chars.len() >= 2 && chars[0] == '-' {
            let letters = vstd::slice::slice_subrange(chars.as_slice(), 1, chars.len());
            assert(letters@ == arg@.skip(1));
            (Kind::Option, read_cluster_word(letters, items, notes))
        } else {
            (Kind::Plain, None)
        }
    }
}

/// The argument at which the child command starts, the number of arguments when there is none.
pub fn find_command_start(args: &[String]) -> (r: usize)
    ensures
        r == command_start(texts(args@), 1),
{
    let ghost all = texts(args@);
    let mut i: usize = 1;
    while i < args.len()
        invariant
            1 <= i,
            i <= args@.len() + 1 || i == 1,
            all == texts(args@),
            command_start(all, 1) == command_start(all, i as int),
        decreases args@.len() + 1 - i,
    {
        let mut items: Vec<Parsed> = Vec::new();
        let mut notes: Vec<String> = Vec::new();
        let (what, pending) = read_word(args[i].as_str(), &mut items, &mut notes);
        match what {
            Kind::Separator => {
                return i + 1;
            },
            Kind::Plain => {
                return i;
            },
            Kind::Option => {
                if pending.is_some() {
                    if i + 1 >= args.len() {
                        assert(command_start(all, i + 2) == all.len());
                        return args.len();
                    }
                    i += 1;
                }
                i += 1;
            },
        }
    }
    args.len()
}

/// The options in the arguments before `end`, or the complaint that one of them lacks its value.
/// What is no option is remarked on in `notes` and left out.
pub fn collect_options(
    args: &[String],
    end: usize,
    notes: &mut Vec<String>,
) -> (r: Result<Vec<Parsed>, String>)
    requires
        end <= args@.len(),
    ensures
        ({
            let found = collected(texts(args@), end as int, 1);
            &&& texts(final(notes)@) == texts(old(notes)@) + found.notes
            &&& match r {
                Ok(items) => found.failure is None && parsed_view(items@) == found.items,
                Err(complaint) => found.failure == Some(complaint@),
            }
        }),
{
    let ghost all = texts(args@);
    let ghost found = collected(all, end as int, 1);
    let ghost before = texts(notes@);
    let ghost mut seen_notes = Seq::<Seq<char>>::empty();
    let mut out: Vec<Parsed> = Vec::new();
    proof {
        assert(parsed_view(out@) =~= Seq::empty());
        assert(behind(Seq::empty(), Seq::empty(), found) =~= found);
        assert(before + seen_notes =~= before);
    }
    let mut i: usize = 1;
    while i < end
        invariant
            1 <= i,
            end <= args@.len(),
            all == texts(args@),
            found == collected(all, end as int, 1),
            found == behind(parsed_view(out@), seen_notes, collected(all, end as int, i as int)),
            texts(notes@) == before + seen_notes,
            before == texts(old(notes)@),
        decreases end - i,
    {
        let ghost seen_items = parsed_view(out@);
        let ghost was_notes = seen_notes;
        let (what, pending) = read_word(args[i].as_str(), &mut out, notes);
        match what {
            Kind::Option => {
                let ghost read = reading(all[i as int])->0;
                proof {
                    seen_notes = was_notes + read.notes;
                    assert(texts(notes@) =~= before + seen_notes);
                }
                match pending {
                    None => {
                        proof {
                            let rest = collected(all, end as int, i + 1);
                            assert(behind(seen_items, was_notes, behind(read.items, read.notes, rest))
                                =~= behind(seen_items + read.items, seen_notes, rest));
                        }
                        i += 1;
                    },
                    Some((opt, complaint)) => {
                        if i + 1 >= end {
                            return Err(complaint);
                        }
                        let value = args[i + 1].clone();
                        add_parsed(&mut out, opt, Some(value));
                        proof {
                            let rest = collected(all, end as int, i + 2);
                            let item = ParsedView { opt, value: Some(all[i + 1]) };
                            assert(parsed_view(out@) =~= seen_items + read.items.push(item));
                            assert(behind(
                                seen_items,
                                was_notes,
                                behind(read.items.push(item), read.notes, rest),
                            ) =~= behind(seen_items + read.items.push(item), seen_notes, rest));
                        }
                        i += 2;
                    },
                }
            },
            _ => {
                proof {
                    assert(parsed_view(out@) + Seq::empty() =~= parsed_view(out@));
                    assert(seen_notes + Seq::empty() =~= seen_notes);
                }
                return Ok(out);
            },
        }
    }
    proof {
        assert(parsed_view(out@) + Seq::empty() =~= parsed_view(out@));
        assert(seen_notes + Seq::empty() =~= seen_notes);
    }
    Ok(out)
}

/// Where a walk over the options before `end` stops when it has come to argument `i`: at `end`,
/// at a word that is no option, or where an option lacks its value.
pub open spec fn walk_stop(args: Seq<Seq<char>>, end: int, i: int) -> int
    decreases end - i,
{
    if i >= end {
        i
    } else {
        match reading(args[i]) {
            None => i,
            Some(r) => if r.pending is None {
                walk_stop(args, end, i + 1)
            } else if i + 1 >= end {
                i
            } else {
                walk_stop(args, end, i + 2)
            },
        }
    }
}

/// The command starts inside the command line, or behind its last word.
pub proof fn lemma_start_in_range(args: Seq<Seq<char>>, i: int)
    requires
        0 <= i <= args.len(),
    ensures
        i <= command_start(args, i) <= args.len(),
    decreases args.len() - i,
{
    if i < args.len() {
        match reading(args[i]) {
            Some(r) => {
                if r.pending is Some {
                    if i + 2 <= args.len() {
                        lemma_start_in_range(args, i + 2);
                    } else {
                        assert(command_start(args, i + 2) == args.len());
                    }
                } else {
                    lemma_start_in_range(args, i + 1);
                }
            },
            None => {},
        }
    }
}

/// The search for the command and the walk over the options agree. The walk over what stands
/// before the command stops exactly at the command, or at the `--` before it; an option lacks its
/// value only as the last word of a command line that holds no command.
pub proof fn law_command_start_agrees_with_options(args: Seq<Seq<char>>)
    requires
        args.len() >= 1,
    ensures
        ({
            let start = command_start(args, 1);
            let stop = walk_stop(args, start, 1);
            &&& 1 <= start <= args.len()
            &&& match collected(args, start, 1).failure {
                Some(_) => start == args.len() && stop == start - 1,
                None => stop == start || (stop == start - 1 && word(args[stop]) is Separator),
            }
            &&& start < args.len() && stop == start ==> word(args[start]) is Plain
        }),
{
    lemma_start_in_range(args, 1);
    lemma_walks_agree(args, 1);
}

/// The two walks agree from any argument on.
proof fn lemma_walks_agree(args: Seq<Seq<char>>, i: int)
    requires
        1 <= i <= args.len(),
    ensures
        ({
            let start = command_start(args, i);
            let stop = walk_stop(args, start, i);
            &&& i <= start <= args.len()
            &&& match collected(args, start, i).failure {
                Some(_) => start == args.len() && stop == start - 1,
                None => stop == start || (stop == start - 1 && word(args[stop]) is Separator),
            }
            &&& start < args.len() && stop == start ==> word(args[start]) is Plain
        }),
    decreases args.len() - i,
{
    lemma_start_in_range(args, i);
    if i < args.len() {
        match reading(args[i]) {
            Some(r) => {
                if r.pending is Some {
                    if i + 2 <= args.len() {
                        lemma_walks_agree(args, i + 2);
                    } else {
                        assert(command_start(args, i + 2) == args.len());
                    }
                } else {
                    lemma_walks_agree(args, i + 1);
                }
            },
            None => {},
        }
    }
}

/// Only the words up to the command decide where it starts and which options are found: another
/// command line with the same words up to and with the first word of the command has the same
/// start and the same options.
pub proof fn law_words_behind_the_command_are_no_options(
    args: Seq<Seq<char>>,
    other: Seq<Seq<char>>,
)
    requires
        args.len() >= 1,
        command_start(args, 1) < args.len(),
        other.len() > command_start(args, 1),
        other.take(command_start(args, 1) + 1) == args.take(command_start(args, 1) + 1),
    ensures
        command_start(other, 1) == command_start(args, 1),
        collected(other, command_start(other, 1), 1) == collected(args, command_start(args, 1), 1),
{
    lemma_start_in_range(args, 1);
    lemma_same_words(args, other, 1, command_start(args, 1));
}

/// Two command lines with the same words up to the command are walked alike.
proof fn lemma_same_words(args: Seq<Seq<char>>, other: Seq<Seq<char>>, i: int, start: int)
    requires
        1 <= i <= start < args.len(),
        start == command_start(args, i),
        other.len() > start,
        other.take(start + 1) == args.take(start + 1),
    ensures
        command_start(other, i) == start,
        collected(other, start, i) == collected(args, start, i),
    decreases start - i,
{
    assert(other.take(start + 1)[i] == other[i]);
    assert(args.take(start + 1)[i] == args[i]);
    match reading(args[i]) {
        Some(r) => {
            if r.pending is Some {
                if i + 2 <= args.len() {
                    lemma_start_in_range(args, i + 2);
                    assert(other.take(start + 1)[i + 1] == other[i + 1]);
                    assert(args.take(start + 1)[i + 1] == args[i + 1]);
                    lemma_same_words(args, other, i + 2, start);
                } else {
                    assert(command_start(args, i + 2) == args.len());
                }
            } else {
                lemma_start_in_range(args, i + 1);
                lemma_same_words(args, other, i + 1, start);
            }
        },
        None => {},
    }
}

} // verus!
