//! Progress events of an upgrade: the line grammar that recognises them in the
//! tool's output, their human-readable rendering, and their encoding as a flat
//! list of string-keyed entries for transport between processes.

use crate::text::{
    after_first_word, chars_of, decimal, first_word, has_prefix, next_word, nth_word, parse_u8,
    push_decimal, same_text, scan_u8, skip_whitespace, skip_whitespace_back, trim_end,
    trim_start, window_has_prefix,
};
use vstd::prelude::*;

verus! {

/// One progress report of an upgrade.
#[derive(Clone, Debug, PartialEq, Eq)]
pub enum AptUpgradeEvent {
    /// Triggers are being processed for a package.
    Processing { package: String },
    /// Overall progress, in percent.
    Progress { percent: u8 },
    /// A package is being set up.
    SettingUp { package: String },
    /// A version of a package is being unpacked over another.
    Unpacking { package: String, version: String, over: String },
}

/// The mathematical content of an [`AptUpgradeEvent`].
pub ghost enum EventModel {
    Processing { package: Seq<char> },
    Progress { percent: u8 },
    SettingUp { package: Seq<char> },
    Unpacking { package: Seq<char>, version: Seq<char>, over: Seq<char> },
}

impl View for AptUpgradeEvent {
    type V = EventModel;

    open spec fn view(&self) -> EventModel {
        match *self {
            AptUpgradeEvent::Processing { package } => EventModel::Processing {
                package: package@,
            },
            AptUpgradeEvent::Progress { percent } => EventModel::Progress { percent },
            AptUpgradeEvent::SettingUp { package } => EventModel::SettingUp { package: package@ },
            AptUpgradeEvent::Unpacking { package, version, over } => EventModel::Unpacking {
                package: package@,
                version: version@,
                over: over@,
            },
        }
    }
}

/// A list of string-keyed entries, each as the characters of its key and of its
/// value.
pub type EntriesModel = Seq<(Seq<char>, Seq<char>)>;

/// `s` without its first and its last character (nothing where it has fewer
/// than two).
pub open spec fn strip_ends(s: Seq<char>) -> Seq<char> {
    if s.len() >= 2 {
        s.subrange(1, s.len() - 1)
    } else {
        Seq::empty()
    }
}

/// What a line that begins with `Progress: [` reports. `rest` is what follows
/// that prefix. Without its trailing whitespace it must be five characters
/// long: a field of three, which holds the percentage behind optional padding,
/// and the `%]` that closes the report.
pub open spec fn parse_progress(rest: Seq<char>) -> Option<EventModel> {
    let body = trim_end(rest);
    if body.len() == 5 && body.skip(3) == "%]"@ {
        match parse_u8(trim_start(body.take(3))) {
            Some(percent) => Some(EventModel::Progress { percent }),
            None => None,
        }
    } else {
        None
    }
}

/// What a line that begins with `Unpacking ` reports. `rest` is what follows
/// that prefix: the package, the new version, a word that is skipped, and the
/// version that is replaced. Both versions lose their first and last character
/// (the parentheses round them), and more than two characters must be left of
/// each.
pub open spec fn parse_unpacking(rest: Seq<char>) -> Option<EventModel> {
    match (nth_word(rest, 0), nth_word(rest, 1), nth_word(rest, 3)) {
        (Some(package), Some(version), Some(over)) => {
            if strip_ends(version).len() > 2 && strip_ends(over).len() > 2 {
                Some(
                    EventModel::Unpacking {
                        package,
                        version: strip_ends(version),
                        over: strip_ends(over),
                    },
                )
            } else {
                None
            }
        },
        _ => None,
    }
}

/// The event that one line of the tool's output reports, if it reports one.
/// The line's prefix selects the rule; a line that breaks the rule of its
/// prefix reports nothing.
pub open spec fn parse_event(line: Seq<char>) -> Option<EventModel> {
    if has_prefix(line, "Progress: ["@) {
        parse_progress(line.skip("Progress: ["@.len() as int))
    } else if has_prefix(line, "Processing triggers for "@) {
        match first_word(line.skip("Processing triggers for "@.len() as int)) {
            Some(package) => Some(EventModel::Processing { package }),
            None => None,
        }
    } else if has_prefix(line, "Setting up "@) {
        match first_word(line.skip("Setting up "@.len() as int)) {
            Some(package) => Some(EventModel::SettingUp { package }),
            None => None,
        }
    } else if has_prefix(line, "Unpacking "@) {
        parse_unpacking(line.skip("Unpacking "@.len() as int))
    } else {
        None
    }
}

/// `n` in decimal, with spaces in front so that it is three characters wide.
pub open spec fn decimal_padded(n: u8) -> Seq<char> {
    if n < 10 {
        seq![' ', ' '] + decimal(n as nat)
    } else if n < 100 {
        seq![' '] + decimal(n as nat)
    } else {
        decimal(n as nat)
    }
}

/// The human-readable rendering of an event.
pub open spec fn render(e: EventModel) -> Seq<char> {
    match e {
        EventModel::Processing { package } => "processing triggers for "@ + package,
        EventModel::Progress { percent } => "progress: ["@ + decimal_padded(percent) + "%]"@,
        EventModel::SettingUp { package } => "setting up "@ + package,
        EventModel::Unpacking { package, version, over } => "unpacking "@ + package + " ("@
            + version + ") over ("@ + over + ")"@,
    }
}

/// The entries that encode an event. An unpacking takes three, of which `over`
/// comes first: that is the order in which [`decode`] reads them.
pub open spec fn encode(e: EventModel) -> EntriesModel {
    match e {
        EventModel::Processing { package } => seq![("processing_package"@, package)],
        EventModel::Progress { percent } => seq![("percent"@, decimal(percent as nat))],
        EventModel::SettingUp { package } => seq![("setting_up"@, package)],
        EventModel::Unpacking { package, version, over } => seq![
            ("over"@, over),
            ("version"@, version),
            ("unpacking"@, package),
        ],
    }
}

/// The event that a list of entries encodes, if it encodes one. The first
/// entry's key names the variant. For an unpacking it is `over`, and the two
/// entries behind it must be `version` and `unpacking`, in either order.
/// Entries behind those that the variant takes are not read.
pub open spec fn decode(entries: EntriesModel) -> Option<EventModel> {
    if entries.len() == 0 {
        None
    } else if entries[0].0 == "processing_package"@ {
        Some(EventModel::Processing { package: entries[0].1 })
    } else if entries[0].0 == "percent"@ {
        match parse_u8(entries[0].1) {
            Some(percent) => Some(EventModel::Progress { percent }),
            None => None,
        }
    } else if entries[0].0 == "setting_up"@ {
        Some(EventModel::SettingUp { package: entries[0].1 })
    } else if entries[0].0 == "over"@ && entries.len() >= 3 {
        if entries[1].0 == "version"@ && entries[2].0 == "unpacking"@ {
            Some(
                EventModel::Unpacking {
                    package: entries[2].1,
                    version: entries[1].1,
                    over: entries[0].1,
                },
            )
        } else if entries[1].0 == "unpacking"@ && entries[2].0 == "version"@ {
            Some(
                EventModel::Unpacking {
                    package: entries[1].1,
                    version: entries[2].1,
                    over: entries[0].1,
                },
            )
        } else {
            None
        }
    } else {
        None
    }
}

/// The model of a list of entries held as string slices and strings.
pub open spec fn entries_model<'a>(entries: Seq<(&'a str, String)>) -> EntriesModel {
    Seq::new(entries.len(), |i: int| (entries[i].0@, entries[i].1@))
}

/// An owned copy of the characters `[from, to)` of `text`.
fn owned_range(text: &str, from: usize, to: usize) -> (s: String)
    requires
        from <= to <= text@.len(),
    ensures
        s@ == text@.subrange(from as int, to as int),
{
    text.substring_char(from, to).to_owned()
}

impl AptUpgradeEvent {
    /// Reads one line of the tool's output. Gives the event that the line
    /// reports, and an error for a line that reports none.
    pub fn from_str(input: &str) -> (r: Result<AptUpgradeEvent, ()>)
        ensures
            match parse_event(input@) {
                Some(m) => r matches Ok(e) && e@ == m,
                None => r is Err,
            },
    {
        let chars = chars_of(input);
        let s = chars.as_slice();
        let n = s.len();
        assert(s@.subrange(0, n as int) == input@);
        let progress = chars_of("Progress: [");
        let processing = chars_of("Processing triggers for ");
        let setting_up = chars_of("Setting up ");
        let unpacking = chars_of("Unpacking ");
        if window_has_prefix(s, 0, n, progress.as_slice()) {
            let k = progress.len();
            assert(input@.skip(k as int) == s@.subrange(k as int, n as int));
            let end = skip_whitespace_back(s, k, n);
            if end - k != 5 {
                return Err(());
            }
            let ghost body = s@.subrange(k as int, end as int);
            proof {
                reveal_strlit("%]");
            }
            if s[k + 3] != '%' || s[k + 4] != ']' {
                assert(body.skip(3)[0] == s@[k + 3] && body.skip(3)[1] == s@[k + 4]);
                return Err(());
            }
            assert(body.skip(3) =~= "%]"@);
            assert(body.take(3) == s@.subrange(k as int, k + 3));
            let a = skip_whitespace(s, k, k + 3);
            match scan_u8(s, a, k + 3) {
                Some(percent) => Ok(AptUpgradeEvent::Progress { percent }),
                None => Err(()),
            }
        } else if window_has_prefix(s, 0, n, processing.as_slice()) {
            let k = processing.len();
            assert(input@.skip(k as int) == s@.subrange(k as int, n as int));
            match next_word(s, k, n) {
                Some((a, b)) => Ok(
                    AptUpgradeEvent::Processing { package: owned_range(input, a, b) },
                ),
                None => Err(()),
            }
        } else if window_has_prefix(s, 0, n, setting_up.as_slice()) {
            let k = setting_up.len();
            assert(input@.skip(k as int) == s@.subrange(k as int, n as int));
            match next_word(s, k, n) {
                Some((a, b)) => Ok(
                    AptUpgradeEvent::SettingUp { package: owned_range(input, a, b) },
                ),
                None => Err(()),
            }
        } else if window_has_prefix(s, 0, n, unpacking.as_slice()) {
            let k = unpacking.len();
            assert(input@.skip(k as int) == s@.subrange(k as int, n as int));
            Self::unpacking_from(input, s, k)
        } else {
            Err(())
        }
    }

    /// Reads what follows the prefix of an unpacking line: the window of
    /// `chars`, the characters of `input`, from `from` on.
    fn unpacking_from(
        input: &str,
        chars: &[char],
        from: usize,
    ) -> (r: Result<AptUpgradeEvent, ()>)
        requires
            chars@ == input@,
            from <= chars.len(),
        ensures
            match parse_unpacking(chars@.subrange(from as int, chars.len() as int)) {
                Some(m) => r matches Ok(e) && e@ == m,
                None => r is Err,
            },
    {
        let n = chars.len();
        let ghost rest = chars@.subrange(from as int, n as int);
        proof {
            reveal_with_fuel(nth_word, 4);
        }
        let (a0, b0) = match next_word(chars, from, n) {
            Some(w) => w,
            None => {
                assert(nth_word(rest, 0) is None);
                return Err(());
            },
        };
        let (a1, b1) = match next_word(chars, b0, n) {
            Some(w) => w,
            None => {
                assert(nth_word(rest, 1) is None);
                return Err(());
            },
        };
        let (a3, b3) = match next_word(chars, b1, n) {
            Some((_, b2)) => match next_word(chars, b2, n) {
                Some(w) => w,
                None => {
                    assert(nth_word(rest, 3) is None);
                    return Err(());
                },
            },
            None => {
                let ghost gone = after_first_word(chars@.subrange(b1 as int, n as int));
                assert(trim_start(gone) == gone);
                assert(nth_word(rest, 3) is None);
                return Err(());
            },
        };
        assert(nth_word(rest, 0) == Some(chars@.subrange(a0 as int, b0 as int)));
        assert(nth_word(rest, 1) == Some(chars@.subrange(a1 as int, b1 as int)));
        assert(nth_word(rest, 3) == Some(chars@.subrange(a3 as int, b3 as int)));
        if b1 - a1 > 4 && b3 - a3 > 4 {
            assert(strip_ends(chars@.subrange(a1 as int, b1 as int)) == input@.subrange(
                a1 + 1,
                b1 - 1,
            ));
            assert(strip_ends(chars@.subrange(a3 as int, b3 as int)) == input@.subrange(
                a3 + 1,
                b3 - 1,
            ));
            Ok(
                AptUpgradeEvent::Unpacking {
                    package: owned_range(input, a0, b0),
                    version: owned_range(input, a1 + 1, b1 - 1),
                    over: owned_range(input, a3 + 1, b3 - 1),
                },
            )
        } else {
            Err(())
        }
    }

    /// The human-readable rendering of the event.
    pub fn to_string(&self) -> (s: String)
        ensures
            s@ == render(self@),
    {
        match self {
            AptUpgradeEvent::Processing { package } => {
                let mut s = String::from_str("processing triggers for ");
                s.append(package.as_str());
                s
            },
            AptUpgradeEvent::Progress { percent } => {
                let mut s = String::from_str("progress: [");
                if *percent < 10 {
                    s.append("  ");
                } else if *percent < 100 {
                    s.append(" ");
                }
                proof {
                    reveal_strlit("  ");
                    reveal_strlit(" ");
                }
                push_decimal(&mut s, *percent as u64);
                assert(s@ =~= "progress: ["@ + decimal_padded(*percent));
                s.append("%]");
                s
            },
            AptUpgradeEvent::SettingUp { package } => {
                let mut s = String::from_str("setting up ");
                s.append(package.as_str());
                s
            },
            AptUpgradeEvent::Unpacking { package, version, over } => {
                let mut s = String::from_str("unpacking ");
                s.append(package.as_str());
                s.append(" (");
                s.append(version.as_str());
                s.append(") over (");
                s.append(over.as_str());
                s.append(")");
                s
            },
        }
    }

    /// Encodes the event as a list of string-keyed entries.
    pub fn into_dbus_map(self) -> (entries: Vec<(&'static str, String)>)
        ensures
            entries_model(entries@) == encode(self@),
    {
        let mut entries: Vec<(&'static str, String)> = Vec::new();
        match self {
            AptUpgradeEvent::Processing { package } => {
                entries.push(("processing_package", package));
            },
            AptUpgradeEvent::Progress { percent } => {
                let mut value = String::new();
                push_decimal(&mut value, percent as u64);
                assert(value@ =~= decimal(percent as nat));
                entries.push(("percent", value));
            },
            AptUpgradeEvent::SettingUp { package } => {
                entries.push(("setting_up", package));
            },
            AptUpgradeEvent::Unpacking { package, version, over } => {
                entries.push(("over", over));
                entries.push(("version", version));
                entries.push(("unpacking", package));
            },
        }
        assert(entries_model(entries@) =~= encode(self@));
        entries
    }

    /// Decodes a list of string-keyed entries. Gives the event that the list
    /// encodes, and an error for a list that encodes none.
    pub fn from_dbus_map(entries: &[(&str, String)]) -> (r: Result<AptUpgradeEvent, ()>)
        ensures
            match decode(entries_model(entries@)) {
                Some(m) => r matches Ok(e) && e@ == m,
                None => r is Err,
            },
    {
        let ghost model = entries_model(entries@);
        if entries.len() == 0 {
            return Err(());
        }
        let key = entries[0].0;
        assert(model[0] == (entries@[0].0@, entries@[0].1@));
        if same_text(key, "processing_package") {
            Ok(AptUpgradeEvent::Processing { package: entries[0].1.clone() })
        } else if same_text(key, "percent") {
            let digits = chars_of(entries[0].1.as_str());
            assert(digits@.subrange(0, digits.len() as int) == digits@);
            match scan_u8(digits.as_slice(), 0, digits.len()) {
                Some(percent) => Ok(AptUpgradeEvent::Progress { percent }),
                None => Err(()),
            }
        } else if same_text(key, "setting_up") {
            Ok(AptUpgradeEvent::SettingUp { package: entries[0].1.clone() })
        } else if same_text(key, "over") && entries.len() >= 3 {
            assert(model[1] == (entries@[1].0@, entries@[1].1@));
            assert(model[2] == (entries@[2].0@, entries@[2].1@));
            let key1 = entries[1].0;
            let key2 = entries[2].0;
            if same_text(key1, "version") && same_text(key2, "unpacking") {
                Ok(
                    AptUpgradeEvent::Unpacking {
                        package: entries[2].1.clone(),
                        version: entries[1].1.clone(),
                        over: entries[0].1.clone(),
                    },
                )
            } else if same_text(key1, "unpacking") && same_text(key2, "version") {
                Ok(
                    AptUpgradeEvent::Unpacking {
                        package: entries[1].1.clone(),
                        version: entries[2].1.clone(),
                        over: entries[0].1.clone(),
                    },
                )
            } else {
                Err(())
            }
        } else {
            Err(())
        }
    }
}

impl std::str::FromStr for AptUpgradeEvent {
    type Err = ();

    /// Reads one line of the tool's output, as [`AptUpgradeEvent::from_str`]
    /// does: gives the event that the line reports, and an error for a line
    /// that reports none.
    fn from_str(input: &str) -> (r: Result<Self, Self::Err>)
        ensures
            match parse_event(input@) {
                Some(m) => r matches Ok(e) && e@ == m,
                None => r is Err,
            },
    {
        AptUpgradeEvent::from_str(input)
    }
}

} // verus!
