//! How options and their values are spelled, word by word.

use crate::cli::config::{
    ConfigView, ends_with, endpoints_for, is_literal_path, normalized_base, title_on,
};
use crate::cli::draft::{PathProbeView, expanded_path, preference, probe};
use crate::cli::laws::is_switch;
use crate::cli::options::{
    Opt, ParsedView, Reading, Word, collected, long_option, read_cluster, reading, short_option,
    takes_value, word,
};
use crate::cli::values::{integer_value, is_http_url, is_method};
use crate::jsonc::{JsonView, json_value};
use crate::number::{
    decimal, digit, integer, law_decimal_is_plain, law_signed_decimal_reads_back, natural,
    signed_decimal,
};
use crate::text::laws::{
    law_only_that_character_is_taken_off, law_only_white_space_is_trimmed,
    law_parts_are_found_again, law_texts_are_parted_once, law_what_is_not_white_is_kept,
};
use crate::text::{is_white, same_ignoring_case, split_once, trim, trim_end_of};
use vstd::prelude::*;

verus! {

/// The letter of an option, if it has one.
pub open spec fn letter_of(opt: Opt) -> Option<char> {
    match opt {
        Opt::Port => Some('p'),
        Opt::Interface => Some('i'),
        Opt::SocketOwner => Some('U'),
        Opt::Credential => Some('c'),
        Opt::AuthHeader => Some('H'),
        Opt::Uid => Some('u'),
        Opt::Gid => Some('g'),
        Opt::Signal => Some('s'),
        Opt::Cwd => Some('w'),
        Opt::Index => Some('I'),
        Opt::BasePath => Some('b'),
        Opt::PingInterval => Some('P'),
        Opt::SrvBufSize => Some('f'),
        Opt::Ipv6 => Some('6'),
        Opt::Ssl => Some('S'),
        Opt::SslCert => Some('C'),
        Opt::SslKey => Some('K'),
        Opt::SslCa => Some('A'),
        Opt::UrlArg => Some('a'),
        Opt::Writable => Some('W'),
        Opt::TerminalType => Some('T'),
        Opt::ClientOption => Some('t'),
        Opt::CheckOrigin => Some('O'),
        Opt::MaxClients => Some('m'),
        Opt::Once => Some('o'),
        Opt::ExitNoConn => Some('q'),
        Opt::Browser => Some('B'),
        Opt::Debug => Some('d'),
        Opt::Version => Some('v'),
        Opt::Help => Some('h'),
        Opt::AuthUrl => Some('R'),
        Opt::AuthRequestHeader => Some('F'),
        Opt::AuthUserHeader => Some('N'),
        Opt::Title => None,
        Opt::AuthMethod => None,
        Opt::AuthCacheTtl => None,
    }
}

/// The long name of an option.
pub open spec fn name_of(opt: Opt) -> Seq<char> {
    match opt {
        Opt::Port => "port"@,
        Opt::Interface => "interface"@,
        Opt::SocketOwner => "socket-owner"@,
        Opt::Credential => "credential"@,
        Opt::AuthHeader => "auth-header"@,
        Opt::Uid => "uid"@,
        Opt::Gid => "gid"@,
        Opt::Signal => "signal"@,
        Opt::Cwd => "cwd"@,
        Opt::Index => "index"@,
        Opt::BasePath => "base-path"@,
        Opt::PingInterval => "ping-interval"@,
        Opt::SrvBufSize => "srv-buf-size"@,
        Opt::Ipv6 => "ipv6"@,
        Opt::Ssl => "ssl"@,
        Opt::SslCert => "ssl-cert"@,
        Opt::SslKey => "ssl-key"@,
        Opt::SslCa => "ssl-ca"@,
        Opt::UrlArg => "url-arg"@,
        Opt::Writable => "writable"@,
        Opt::TerminalType => "terminal-type"@,
        Opt::Title => "title"@,
        Opt::ClientOption => "client-option"@,
        Opt::CheckOrigin => "check-origin"@,
        Opt::MaxClients => "max-clients"@,
        Opt::Once => "once"@,
        Opt::ExitNoConn => "exit-no-conn"@,
        Opt::Browser => "browser"@,
        Opt::Debug => "debug"@,
        Opt::Version => "version"@,
        Opt::Help => "help"@,
        Opt::AuthUrl => "auth-url"@,
        Opt::AuthRequestHeader => "auth-request-header"@,
        Opt::AuthUserHeader => "auth-user-header"@,
        Opt::AuthMethod => "auth-method"@,
        Opt::AuthCacheTtl => "auth-cache-ttl"@,
    }
}

/// A letter stands for an option exactly if it is that option's letter.
pub proof fn law_letters_stand_for_their_options(c: char, opt: Opt)
    ensures
        short_option(c) == Some(opt) <==> letter_of(opt) == Some(c),
{
}

/// A long name stands for an option only if it is that option's name, and every name stands for one.
pub proof fn law_names_stand_for_their_options(name: Seq<char>, opt: Opt)
    ensures
        long_option(name) == Some(opt) ==> name == name_of(opt),
        long_option(name_of(opt)) is Some,
{
}

/// What switches something on, asks for help or asks for the version comes without a value; every other
/// option comes with one.
pub proof fn law_what_comes_with_a_value(opt: Opt)
    ensures
        takes_value(opt) <==> !(is_switch(opt) || opt is Help || opt is Version),
{
}

/// A word is read by its dashes: two alone end the options, more behind two are a name, with a value
/// behind its first equals sign if there is one, and more behind one are letters. Anything else is no
/// option.
pub proof fn law_words_are_read_by_their_dashes(arg: Seq<char>)
    ensures
        match word(arg) {
            Word::Separator => arg == seq!['-', '-'],
            Word::Long { name, inline: None } => arg == seq!['-', '-'] + name && name.len() > 0
                && !name.contains('='),
            Word::Long { name, inline: Some(value) } => arg == seq!['-', '-'] + name.push('=') + value
                && !name.contains('='),
            Word::Cluster(letters) => arg == seq!['-'] + letters && letters.len() > 0 && letters[0]
                != '-',
            Word::Plain => arg.len() < 2 || arg[0] != '-',
        },
{
    if arg.len() >= 2 && arg[0] == '-' {
        assert(arg =~= seq!['-'] + arg.skip(1));
        if arg[1] == '-' {
            law_texts_are_parted_once(arg.skip(2), '=');
            assert(arg =~= seq!['-', '-'] + arg.skip(2));
            match split_once(arg.skip(2), '=') {
                Some((name, value)) => {
                    assert(seq!['-', '-'] + (name.push('=') + value) =~= seq!['-', '-'] + name.push('=')
                        + value);
                },
                None => {
                    if arg.len() == 2 {
                        assert(arg =~= seq!['-', '-']);
                    }
                },
            }
        }
    }
}

/// An option with a value says the same however it is spelled: behind its name and an equals sign, or
/// right behind its letter. Without a value in the same word it waits for the next one.
pub proof fn law_values_may_be_spelled_anywhere(opt: Opt, name: Seq<char>, c: char, value: Seq<char>)
    requires
        takes_value(opt),
        long_option(name) == Some(opt),
        !name.contains('='),
        name.len() > 0,
        short_option(c) == Some(opt),
        value.len() > 0,
    ensures
        ({
            let said = Some(
                Reading {
                    items: seq![ParsedView { opt, value: Some(value) }],
                    notes: Seq::empty(),
                    pending: None,
                },
            );
            &&& reading(seq!['-', '-'] + name.push('=') + value) == said
            &&& reading(seq!['-', c] + value) == said
            &&& reading(seq!['-', '-'] + name) matches Some(r) && r.items.len() == 0 && r.notes.len()
                == 0 && r.pending == Some(
                (opt, "ttyd: option '--"@ + name + "' requires an argument"@),
            )
            &&& reading(seq!['-', c]) matches Some(r) && r.items.len() == 0 && r.notes.len() == 0
                && r.pending == Some(
                (opt, "ttyd: option requires an argument -- '"@ + seq![c] + "'"@),
            )
        }),
{
    let inline = seq!['-', '-'] + name.push('=') + value;
    law_parts_are_found_again(name, '=', value);
    assert(inline.skip(2) =~= name.push('=') + value);
    assert(inline != seq!['-', '-']) by {
        assert(inline.len() > 2);
    }
    let alone = seq!['-', '-'] + name;
    assert(alone.skip(2) =~= name);
    assert(alone.len() > 2);
    let close = seq!['-', c] + value;
    assert(close[1] == c && c != '-');
    assert(close.skip(1) =~= seq![c] + value);
    assert((seq![c] + value).drop_first() =~= value);
    let letter = seq!['-', c];
    assert(letter.skip(1) =~= seq![c]);
    assert(seq![c].drop_first() =~= Seq::empty());
}

/// An option without a value says that it is there, by its name, whatever stands behind an equals sign,
/// and by its letter, with the letters behind it read on.
pub proof fn law_switches_may_be_spelled_together(
    opt: Opt,
    name: Seq<char>,
    c: char,
    value: Seq<char>,
    letters: Seq<char>,
)
    requires
        !takes_value(opt),
        long_option(name) == Some(opt),
        !name.contains('='),
        name.len() > 0,
        short_option(c) == Some(opt),
    ensures
        ({
            let item = ParsedView { opt, value: None };
            let said = Some(
                Reading { items: seq![item], notes: Seq::empty(), pending: None },
            );
            &&& reading(seq!['-', '-'] + name) == said
            &&& reading(seq!['-', '-'] + name.push('=') + value) == said
            &&& reading(seq!['-', c] + letters) matches Some(r) && {
                let rest = read_cluster(letters);
                &&& r.items == seq![item] + rest.items
                &&& r.notes == rest.notes
                &&& r.pending == rest.pending
            }
        }),
{
    let inline = seq!['-', '-'] + name.push('=') + value;
    law_parts_are_found_again(name, '=', value);
    assert(inline.skip(2) =~= name.push('=') + value);
    assert(inline.len() > 2);
    let alone = seq!['-', '-'] + name;
    assert(alone.skip(2) =~= name);
    assert(alone.len() > 2);
    let cluster = seq!['-', c] + letters;
    assert(cluster[1] == c && c != '-');
    assert(cluster.skip(1) =~= seq![c] + letters);
    assert((seq![c] + letters).drop_first() =~= letters);
    let rest = read_cluster(letters);
    assert(Seq::<Seq<char>>::empty() + rest.notes =~= rest.notes);
}

/// Words are read from left to right, and what each of them says stands in front of what the later ones
/// say. An option that waits for its value takes the next word, whatever that is; without a next word
/// there is a complaint. A word that is no option ends the walk.
pub proof fn law_words_are_read_from_left_to_right(args: Seq<Seq<char>>, end: int, i: int)
    requires
        0 <= i < end <= args.len(),
    ensures
        ({
            let all = collected(args, end, i);
            match reading(args[i]) {
                Some(r) => match r.pending {
                    Some((opt, complaint)) => if i + 1 < end {
                        let rest = collected(args, end, i + 2);
                        let item = ParsedView { opt, value: Some(args[i + 1]) };
                        &&& all.items == r.items + seq![item] + rest.items
                        &&& all.notes == r.notes + rest.notes
                        &&& all.failure == rest.failure
                    } else {
                        all.failure == Some(complaint) && all.items == r.items && all.notes == r.notes
                    },
                    None => {
                        let rest = collected(args, end, i + 1);
                        &&& all.items == r.items + rest.items
                        &&& all.notes == r.notes + rest.notes
                        &&& all.failure == rest.failure
                    },
                },
                None => all.items.len() == 0 && all.notes.len() == 0 && all.failure is None,
            }
        }),
{
    match reading(args[i]) {
        Some(r) => {
            match r.pending {
                Some((opt, _)) => {
                    if i + 1 < end {
                        let item = ParsedView { opt, value: Some(args[i + 1]) };
                        assert(r.items.push(item) =~= r.items + seq![item]);
                    }
                },
                None => {},
            }
        },
        None => {},
    }
}

/// What nobody knows is remarked on and says nothing; the letters behind an unknown one are read on.
pub proof fn law_unknown_words_say_nothing(
    name: Seq<char>,
    value: Option<Seq<char>>,
    c: char,
    letters: Seq<char>,
)
    ensures
        long_option(name) is None ==> {
            let r = crate::cli::options::read_long(name, value);
            &&& r.items.len() == 0 && r.pending is None
            &&& r.notes == seq!["ttyd: unrecognized option '--"@ + name + "'"@]
        },
        short_option(c) is None ==> {
            let r = read_cluster(seq![c] + letters);
            let rest = read_cluster(letters);
            &&& r.items == rest.items && r.pending == rest.pending
            &&& r.notes == seq!["ttyd: invalid option -- '"@ + seq![c] + "'"@] + rest.notes
        },
        read_cluster(Seq::empty()).items.len() == 0,
        read_cluster(Seq::empty()).notes.len() == 0,
        read_cluster(Seq::empty()).pending is None,
{
    assert((seq![c] + letters).drop_first() =~= letters);
    let rest = read_cluster(letters);
    assert(Seq::<ParsedView>::empty() + rest.items =~= rest.items);
}

/// A trimmed text is trimmed.
proof fn lemma_trim_twice(s: Seq<char>)
    ensures
        trim(trim(s)) == trim(s),
{
    law_only_white_space_is_trimmed(s);
    law_what_is_not_white_is_kept(trim(s));
}

/// White space around an integer does not count.
pub proof fn law_white_space_around_integers(raw: Seq<char>)
    ensures
        integer_value(raw) == integer_value(trim(raw)),
{
    lemma_trim_twice(raw);
}

/// An integer that is written in decimal is read as it is, as far as 64 bits hold it, and beyond that it
/// is none.
pub proof fn law_decimal_integers_are_read(n: int)
    ensures
        integer_value(signed_decimal(n)) == if i64::MIN <= n <= i64::MAX {
            Some(n)
        } else {
            None
        },
{
    let t = signed_decimal(n);
    let m = if n < 0 {
        (-n) as nat
    } else {
        n as nat
    };
    let d = decimal(m);
    law_decimal_is_plain(m);
    law_signed_decimal_reads_back(n);
    assert(t.last() == d.last());
    assert(d.last() == d[d.len() - 1]);
    if n < 0 {
        assert(t[0] == '-');
        assert(t.len() > 1 && t[1] == d[0]);
    } else {
        assert(t[0] == d[0]);
        if t.len() >= 2 {
            assert(t[1] == d[1]);
        }
    }
    law_what_is_not_white_is_kept(t);
    if n == 0 {
        assert(d =~= seq!['0']);
    }
}

/// An integer behind `0x` or `0X` is read as hexadecimal.
pub proof fn law_hexadecimal_integers_are_read(s: Seq<char>)
    requires
        natural(s, 16) matches Some(v) && v <= i64::MAX,
    ensures
        integer_value(seq!['0', 'x'] + s) == natural(s, 16),
        integer_value(seq!['0', 'X'] + s) == natural(s, 16),
{
    lemma_last_digit(s);
    crate::number::law_signs(s, 16);
    let a = seq!['0', 'x'] + s;
    let b = seq!['0', 'X'] + s;
    assert(a.last() == s.last() && b.last() == s.last());
    law_what_is_not_white_is_kept(a);
    law_what_is_not_white_is_kept(b);
    assert(a.skip(2) =~= s);
    assert(b.skip(2) =~= s);
    lemma_value_not_negative(s, 16);
}

/// A number ends with a digit, which is no white space.
proof fn lemma_last_digit(s: Seq<char>)
    requires
        natural(s, 16) is Some,
    ensures
        s.len() > 0,
        !is_white(s.last()),
{
    assert(digit(s[s.len() - 1], 16) is Some);
}

/// A number without a sign is not negative.
proof fn lemma_value_not_negative(s: Seq<char>, radix: int)
    requires
        radix > 0,
        crate::number::all_digits(s, radix),
    ensures
        crate::number::digits_value(s, radix) >= 0,
    decreases s.len(),
{
    if s.len() > 0 {
        let head = s.drop_last();
        assert forall|i: int| 0 <= i < head.len() implies (#[trigger] digit(head[i], radix)) is Some by {
            assert(digit(s[i], radix) is Some);
        }
        lemma_value_not_negative(head, radix);
        assert(digit(s[s.len() - 1], radix) is Some);
        assert(crate::number::digits_value(head, radix) * radix >= 0) by (nonlinear_arith)
            requires
                crate::number::digits_value(head, radix) >= 0,
                radix > 0,
        ;
    }
}

/// Digits behind a leading zero are an octal literal, and denote no integer.
pub proof fn law_octal_literals_are_refused(s: Seq<char>)
    requires
        natural(s, 10) is Some,
    ensures
        integer_value(seq!['0'] + s) is None,
        integer_value(seq!['-', '0'] + s) is None,
{
    assert(digit(s[0], 10) is Some);
    assert(digit(s[s.len() - 1], 10) is Some);
    let a = seq!['0'] + s;
    let b = seq!['-', '0'] + s;
    assert(a.last() == s.last() && b.last() == s.last());
    assert(a[1] == s[0]);
    law_what_is_not_white_is_kept(a);
    law_what_is_not_white_is_kept(b);
}

/// A text that is an integer, and does not begin with a zero, is made of decimal digits behind at most
/// one sign.
pub proof fn law_nothing_else_is_an_integer(raw: Seq<char>)
    ensures
        ({
            let t = trim(raw);
            integer_value(raw) is Some && t[0] != '0' ==> t.len() > 0 && (('0' <= t[0] <= '9') || t[0]
                == '+' || t[0] == '-') && forall|i: int|
                1 <= i < t.len() ==> '0' <= #[trigger] t[i] <= '9'
        }),
{
    let t = trim(raw);
    if integer_value(raw) is Some && t[0] != '0' {
        assert(integer(t, 10) is Some);
        let signed = t.len() > 0 && (t[0] == '+' || t[0] == '-');
        let body = if signed {
            t.drop_first()
        } else {
            t
        };
        assert(natural(body, 10) is Some);
        assert(digit(body[0], 10) is Some);
        assert forall|i: int| 1 <= i < t.len() implies '0' <= #[trigger] t[i] <= '9' by {
            if signed {
                assert(digit(body[i - 1], 10) is Some);
                assert(body[i - 1] == t[i]);
            } else {
                assert(digit(body[i], 10) is Some);
            }
        }
    }
}

/// A base path is refused exactly if it holds a character that means something to a router, with words
/// that name it; otherwise the page, the token and the WebSocket stand below it. It begins with a slash
/// and ends in none, and is otherwise what was given.
#[verifier::rlimit(40)]
pub proof fn law_base_paths(base: Seq<char>)
    ensures
        endpoints_for(base) is Err <==> base.contains('{') || base.contains('}') || base.contains('?')
            || base.contains('#'),
        match endpoints_for(base) {
            Err(message) => message == "ttyd: invalid base path: "@ + base,
            Ok(e) => {
                &&& e.index == e.parent + "/"@
                &&& e.token == e.parent + "/token"@
                &&& e.ws == e.parent + "/ws"@
                &&& e.parent.len() > 0 ==> e.parent[0] == '/' && e.parent.last() != '/'
                &&& e.parent == trim_end_of(base, '/') || e.parent == seq!['/'] + trim_end_of(base, '/')
                &&& base.len() > 0 && base[0] == '/' || trim_end_of(base, '/').len() == 0 ==> e.parent
                    == trim_end_of(base, '/')
            },
        },
{
    reveal_strlit("/");
    let trimmed = trim_end_of(base, '/');
    let path = normalized_base(base);
    law_only_that_character_is_taken_off(base, '/');
    assert("/"@ =~= seq!['/']);
    let none = Seq::<char>::empty();
    assert(none + "/"@ =~= "/"@);
    assert(none + "/token"@ =~= "/token"@);
    assert(none + "/ws"@ =~= "/ws"@);
    if trimmed.len() > 0 {
        assert(trimmed[0] == base[0]);
        assert(path.last() == trimmed.last());
    }
    if !is_literal_path(path) {
        let i = choose|i: int|
            0 <= i < path.len() && crate::cli::config::is_route_syntax(#[trigger] path[i]);
        let j = if trimmed[0] == '/' {
            i
        } else {
            i - 1
        };
        assert(path[i] == trimmed[j]);
        assert(trimmed[j] == base[j]);
        assert(base.contains(base[j]));
    }
    if is_literal_path(path) {
        assert forall|i: int| 0 <= i < base.len() implies !crate::cli::config::is_route_syntax(
            #[trigger] base[i],
        ) by {
            if i < trimmed.len() {
                assert(trimmed[i] == base[i]);
                if trimmed[0] == '/' {
                    assert(path[i] == trimmed[i]);
                } else {
                    assert(path[i + 1] == trimmed[i]);
                }
            } else {
                assert(base[i] == '/');
            }
        }
    }
    if path.len() == 0 {
        assert(trimmed.len() == 0);
        assert(path =~= trimmed);
    }
}

/// Without a configured title, the window is titled with the command and the host in brackets.
pub proof fn law_the_usual_title(cfg: ConfigView, host: Seq<char>)
    requires
        cfg.title is None,
    ensures
        title_on(cfg, host).len() == cfg.command.len() + host.len() + 3,
        title_on(cfg, host).take(cfg.command.len() as int) == cfg.command,
        title_on(cfg, host).subrange(
            cfg.command.len() as int + 2,
            cfg.command.len() as int + 2 + host.len() as int,
        ) == host,
        title_on(cfg, host)[cfg.command.len() as int] == ' ',
        title_on(cfg, host)[cfg.command.len() as int + 1] == '(',
        title_on(cfg, host).last() == ')',
{
    reveal_strlit(" (");
    reveal_strlit(")");
    let t = title_on(cfg, host);
    assert(t.take(cfg.command.len() as int) =~= cfg.command);
    assert(t.subrange(
        cfg.command.len() as int + 2,
        cfg.command.len() as int + 2 + host.len() as int,
    ) =~= host);
}

/// A text ends with another exactly if it is something with that one behind it.
pub proof fn law_endings(s: Seq<char>, head: Seq<char>, end: Seq<char>)
    ensures
        ends_with(head + end, end),
        ends_with(s, end) ==> s == s.take(s.len() - end.len()) + end,
{
    assert((head + end).skip(head.len() as int) =~= end);
    if ends_with(s, end) {
        assert(s =~= s.take(s.len() - end.len()) + end);
    }
}

/// A path below the home directory is found there; any other path, and any path where there is no home
/// directory, is taken as it is.
pub proof fn law_only_the_home_directory_is_expanded(path: Seq<char>, home: Option<Seq<char>>)
    ensures
        home matches Some(h) ==> expanded_path(seq!['~', '/'] + path, home) == h.push('/') + path,
        home is None ==> expanded_path(path, home) == path,
        !(path.len() >= 2 && path[0] == '~' && path[1] == '/') ==> expanded_path(path, home) == path,
{
    reveal_strlit("/");
    match home {
        Some(h) => {
            assert((seq!['~', '/'] + path).skip(2) =~= path);
            assert(h + "/"@ + path =~= h.push('/') + path);
        },
        None => {},
    }
}

/// What is known of a path is what its first probe found; a path that was not looked at is missing.
pub proof fn law_the_first_probe_counts(
    probes: Seq<(Seq<char>, PathProbeView)>,
    path: Seq<char>,
    k: int,
)
    requires
        0 <= k <= probes.len(),
        k < probes.len() ==> probes[k].0 == path,
        forall|i: int| 0 <= i < k ==> (#[trigger] probes[i]).0 != path,
    ensures
        k < probes.len() ==> probe(probes, path) == probes[k].1,
        k == probes.len() ==> probe(probes, path) is Missing,
    decreases k,
{
    if k > 0 {
        let rest = probes.drop_first();
        assert(probes[0].0 != path);
        assert forall|i: int| 0 <= i < k - 1 implies (#[trigger] rest[i]).0 != path by {
            assert(rest[i] == probes[i + 1]);
        }
        law_the_first_probe_counts(rest, path, k - 1);
    }
}

/// The value of a client option is the JSON that it is, and a text where it is none.
pub proof fn law_preferences_are_json_or_text(raw: Seq<char>)
    ensures
        json_value(raw) matches Some(value) ==> preference(raw) == value,
        json_value(raw) is None ==> preference(raw) == JsonView::Text(raw),
{
}

/// A subrequest can be sent to a URL exactly if it has an authority and its scheme is `http` or `https`,
/// in any case.
pub proof fn law_what_can_be_asked(scheme: Seq<char>, has_authority: bool)
    ensures
        !is_http_url(None),
        !is_http_url(Some((None, has_authority))),
        is_http_url(Some((Some(scheme), has_authority))) <==> has_authority && (same_ignoring_case(
            scheme,
            "http"@,
        ) || same_ignoring_case(scheme, "http"@.push('s'))),
{
    reveal_strlit("http");
    reveal_strlit("https");
    assert("http"@.push('s') =~= "https"@);
}

/// A method is a token: letters, digits and the marks that HTTP allows, at least one of them; no white
/// space, no control character and nothing that separates.
pub proof fn law_methods_are_tokens(bytes: Seq<u8>)
    ensures
        is_method(bytes) <==> bytes.len() > 0 && forall|i: int|
            0 <= i < bytes.len() ==> {
                let b = #[trigger] bytes[i];
                &&& 33 <= b <= 126
                &&& b != 34 && b != 40 && b != 41 && b != 44 && b != 47 && b != 58 && b != 59
                &&& b != 60 && b != 61 && b != 62 && b != 63 && b != 64 && b != 91 && b != 92
                &&& b != 93 && b != 123 && b != 125
            },
{
    if is_method(bytes) {
        assert forall|i: int| 0 <= i < bytes.len() implies {
            let b = #[trigger] bytes[i];
            &&& 33 <= b <= 126
            &&& b != 34 && b != 40 && b != 41 && b != 44 && b != 47 && b != 58 && b != 59
            &&& b != 60 && b != 61 && b != 62 && b != 63 && b != 64 && b != 91 && b != 92
            &&& b != 93 && b != 123 && b != 125
        } by {
            assert(crate::cli::values::is_token_byte(bytes[i]));
        }
    } else if bytes.len() > 0 {
        let i = choose|i: int|
            0 <= i < bytes.len() && !crate::cli::values::is_token_byte(#[trigger] bytes[i]);
        assert(!crate::cli::values::is_token_byte(bytes[i]));
    }
}

} // verus!
