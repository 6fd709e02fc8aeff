//! Daemon options and the flat `key = value` format they are read from.
use vstd::prelude::*;
use crate::text::{
    chars_of, lemma_split_lines_nonempty, lemma_split_lines_size, split_lines, split_once, split_once_at, str_eq,
    string_of, trim, trimmed,
};

verus! {

#[derive(Debug)]
pub struct Config {
    pub streaming_workspace: String,
    pub physical_monitor: String,
    pub virtual_resolution: String,
    pub on_streaming_enter: String,
    pub on_streaming_leave: String,
    pub on_enable: String,
    pub on_disable: String,
    pub auto_enable: bool,
}

pub struct ConfigView {
    pub streaming_workspace: Seq<char>,
    pub physical_monitor: Seq<char>,
    pub virtual_resolution: Seq<char>,
    pub on_streaming_enter: Seq<char>,
    pub on_streaming_leave: Seq<char>,
    pub on_enable: Seq<char>,
    pub on_disable: Seq<char>,
    pub auto_enable: bool,
}

impl View for Config {
    type V = ConfigView;

    open spec fn view(&self) -> ConfigView {
        ConfigView {
            streaming_workspace: self.streaming_workspace@,
            physical_monitor: self.physical_monitor@,
            virtual_resolution: self.virtual_resolution@,
            on_streaming_enter: self.on_streaming_enter@,
            on_streaming_leave: self.on_streaming_leave@,
            on_enable: self.on_enable@,
            on_disable: self.on_disable@,
            auto_enable: self.auto_enable,
        }
    }
}

/// Something in a configuration text that was skipped.
#[derive(Debug, PartialEq, Eq)]
pub enum ConfigWarning {
    /// The line with this number (from 1) holds no `=`.
    MissingEquals(usize),
    /// The key is none of the recognised options.
    UnknownKey(String),
}

pub enum WarningView {
    MissingEquals(nat),
    UnknownKey(Seq<char>),
}

impl View for ConfigWarning {
    type V = WarningView;

    open spec fn view(&self) -> WarningView {
        match self {
            ConfigWarning::MissingEquals(n) => WarningView::MissingEquals(*n as nat),
            ConfigWarning::UnknownKey(k) => WarningView::UnknownKey(k@),
        }
    }
}

pub open spec fn default_config() -> ConfigView {
    ConfigView {
        streaming_workspace: "9"@,
        physical_monitor: Seq::empty(),
        virtual_resolution: "1920x1080@60"@,
        on_streaming_enter: Seq::empty(),
        on_streaming_leave: Seq::empty(),
        on_enable: Seq::empty(),
        on_disable: Seq::empty(),
        auto_enable: false,
    }
}

/// Whether a line is ignored outright: blank, or a comment.
pub open spec fn is_skipped(line: Seq<char>) -> bool {
    let t = trimmed(line);
    t.len() == 0 || t[0] == '#'
}

pub open spec fn is_known_key(key: Seq<char>) -> bool {
    key == "streaming_workspace"@ || key == "physical_monitor"@ || key == "virtual_resolution"@
        || key == "on_streaming_enter"@ || key == "on_streaming_leave"@ || key == "on_enable"@
        || key == "on_disable"@ || key == "auto_enable"@
}

/// `c` with the option `key` set from the text `val`; unknown keys change nothing.
pub open spec fn set_option(c: ConfigView, key: Seq<char>, val: Seq<char>) -> ConfigView {
    if key == "streaming_workspace"@ {
        ConfigView { streaming_workspace: val, ..c }
    } else if key == "physical_monitor"@ {
        ConfigView { physical_monitor: val, ..c }
    } else if key == "virtual_resolution"@ {
        ConfigView { virtual_resolution: val, ..c }
    } else if key == "on_streaming_enter"@ {
        ConfigView { on_streaming_enter: val, ..c }
    } else if key == "on_streaming_leave"@ {
        ConfigView { on_streaming_leave: val, ..c }
    } else if key == "on_enable"@ {
        ConfigView { on_enable: val, ..c }
    } else if key == "on_disable"@ {
        ConfigView { on_disable: val, ..c }
    } else if key == "auto_enable"@ {
        ConfigView { auto_enable: val == "true"@ || val == "1"@, ..c }
    } else {
        c
    }
}

/// The effect of one line of the configuration text.
pub open spec fn apply_line(c: ConfigView, line: Seq<char>) -> ConfigView {
    if is_skipped(line) {
        c
    } else {
        match split_once(trimmed(line), "="@) {
            Some((k, v)) => set_option(c, trimmed(k), trimmed(v)),
            None => c,
        }
    }
}

/// The warning that one line gives, `lineno` counting from 1.
pub open spec fn line_warning(lineno: nat, line: Seq<char>) -> Option<WarningView> {
    if is_skipped(line) {
        None
    } else {
        match split_once(trimmed(line), "="@) {
            Some((k, v)) => if is_known_key(trimmed(k)) {
                None
            } else {
                Some(WarningView::UnknownKey(trimmed(k)))
            },
            None => Some(WarningView::MissingEquals(lineno)),
        }
    }
}

/// `c` after each of `lines`, in order.
pub open spec fn apply_lines(c: ConfigView, lines: Seq<Seq<char>>) -> ConfigView
    decreases lines.len(),
{
    if lines.len() == 0 {
        c
    } else {
        apply_line(apply_lines(c, lines.drop_last()), lines.last())
    }
}

/// The warnings of `lines`, in order.
pub open spec fn lines_warnings(lines: Seq<Seq<char>>) -> Seq<WarningView>
    decreases lines.len(),
{
    if lines.len() == 0 {
        Seq::empty()
    } else {
        let prev = lines_warnings(lines.drop_last());
        match line_warning(lines.len() as nat, lines.last()) {
            Some(w) => prev.push(w),
            None => prev,
        }
    }
}

/// What reading `content` over the options `c` gives.
pub open spec fn parse_spec(c: ConfigView, content: Seq<char>) -> ConfigView {
    apply_lines(c, split_lines(content))
}

pub open spec fn warnings_spec(content: Seq<char>) -> Seq<WarningView> {
    lines_warnings(split_lines(content))
}

impl Default for Config {
    fn default() -> (r: Config)
        ensures
            r@ == default_config(),
    {
        Config {
            streaming_workspace: "9".to_owned(),
            physical_monitor: String::new(),
            virtual_resolution: "1920x1080@60".to_owned(),
            on_streaming_enter: String::new(),
            on_streaming_leave: String::new(),
            on_enable: String::new(),
            on_disable: String::new(),
            auto_enable: false,
        }
    }
}

impl Config {
    /// Sets the option `key` from `val`; returns whether the key is known.
    fn set(&mut self, key: &str, val: &str) -> (known: bool)
        ensures
            final(self)@ == set_option(old(self)@, key@, val@),
            known == is_known_key(key@),
    {
        if str_eq(key, "streaming_workspace") {
            self.streaming_workspace = val.to_owned();
        } else if str_eq(key, "physical_monitor") {
            self.physical_monitor = val.to_owned();
        } else if str_eq(key, "virtual_resolution") {
            self.virtual_resolution = val.to_owned();
        } else if str_eq(key, "on_streaming_enter") {
            self.on_streaming_enter = val.to_owned();
        } else if str_eq(key, "on_streaming_leave") {
            self.on_streaming_leave = val.to_owned();
        } else if str_eq(key, "on_enable") {
            self.on_enable = val.to_owned();
        } else if str_eq(key, "on_disable") {
            self.on_disable = val.to_owned();
        } else if str_eq(key, "auto_enable") {
            self.auto_enable = str_eq(val, "true") || str_eq(val, "1");
        } else {
            return false;
        }
        true
    }

    /// Applies one line; returns the warning it gives, if any.
    pub fn apply_line(&mut self, lineno: usize, line: &str) -> (w: Option<ConfigWarning>)
        ensures
            final(self)@ == apply_line(old(self)@, line@),
            match line_warning(lineno as nat, line@) {
                Some(x) => w matches Some(y) && y@ == x,
                None => w is None,
            },
    {
        let t = trim(line);
        let tv = chars_of(t.as_str());
        if tv.len() == 0 || tv[0] == '#' {
            return None;
        }
        match split_once_at(t.as_str(), "=") {
            Some((k, v)) => {
                let key = trim(k.as_str());
                let val = trim(v.as_str());
                if self.set(key.as_str(), val.as_str()) {
                    None
                } else {
                    Some(ConfigWarning::UnknownKey(key))
                }
            },
            None => Some(ConfigWarning::MissingEquals(lineno)),
        }
    }

    /// Reads `content` line by line over `cfg`, and lists what was skipped.
    pub fn parse_with_warnings(cfg: Config, content: &str) -> (r: (Config, Vec<ConfigWarning>))
        ensures
            r.0@ == parse_spec(cfg@, content@),
            r.1@.map_values(|w: ConfigWarning| w@) == warnings_spec(content@),
    {
        let ghost init = cfg@;
        let mut cfg = cfg;
        let mut warnings: Vec<ConfigWarning> = Vec::new();
        let v = chars_of(content);
        let mut cur: Vec<char> = Vec::new();
        let mut idx: usize = 0;
        let mut i: usize = 0;
        proof {
            assert(v@.take(0) =~= Seq::<char>::empty());
        }
        while i < v.len()
            invariant
                i <= v@.len(),
                v@ == content@,
                idx + 1 == split_lines(v@.take(i as int)).len(),
                idx <= i,
                cur@ == split_lines(v@.take(i as int)).last(),
                cfg@ == apply_lines(init, split_lines(v@.take(i as int)).drop_last()),
                warnings@.map_values(|w: ConfigWarning| w@) == lines_warnings(
                    split_lines(v@.take(i as int)).drop_last(),
                ),
            decreases v@.len() - i,
        {
            let ghost before = v@.take(i as int);
            proof {
                lemma_split_lines_nonempty(before);
                assert(v@.take(i + 1).drop_last() =~= before);
            }
            let c = v[i];
            if c == '\n' {
                let line = string_of(cur.as_slice());
                let w = cfg.apply_line(idx + 1, line.as_str());
                match w {
                    Some(x) => {
                        warnings.push(x);
                    },
                    None => {},
                }
                proof {
                    let ls = split_lines(before);
                    assert(ls.drop_last().push(ls.last()) =~= ls);
                    assert(split_lines(v@.take(i + 1)).drop_last() =~= ls);
                    assert(warnings@.map_values(|w: ConfigWarning| w@) =~= lines_warnings(ls));
                }
                cur = Vec::new();
                idx = idx + 1;
            } else {
                cur.push(c);
                proof {
                    let ls = split_lines(before);
                    assert(split_lines(v@.take(i + 1)).drop_last() =~= ls.drop_last());
                }
            }
            i = i + 1;
        }
        proof {
            assert(v@.take(v@.len() as int) =~= v@);
            let ls = split_lines(v@);
            lemma_split_lines_nonempty(v@);
            assert(ls.drop_last().push(ls.last()) =~= ls);
        }
        let line = string_of(cur.as_slice());
        // when every character was a newline the last line is empty, and its number is moot
        let lineno = if idx < v.len() {
            idx + 1
        } else {
            idx
        };
        proof {
            if idx >= v@.len() {
                lemma_split_lines_size(v@);
                assert(line@.len() == 0);
                assert(trimmed(line@) =~= line@);
            }
        }
        let w = cfg.apply_line(lineno, line.as_str());
        match w {
            Some(x) => {
                warnings.push(x);
            },
            None => {},
        }
        proof {
            let ls = split_lines(v@);
            assert(warnings@.map_values(|w: ConfigWarning| w@) =~= lines_warnings(ls));
        }
        (cfg, warnings)
    }

    /// Reads `content` line by line over `cfg`: blank lines, comments, lines
    /// without `=` and unknown keys change nothing.
    pub fn parse_with_defaults(cfg: Config, content: &str) -> (r: Config)
        ensures
            r@ == parse_spec(cfg@, content@),
    {
        let (r, _) = Config::parse_with_warnings(cfg, content);
        r
    }
}


proof fn lemma_neutral_line(c: ConfigView, lines: Seq<Seq<char>>, line: Seq<char>, rest: Seq<Seq<char>>)
    requires
        forall|d: ConfigView| #[trigger] apply_line(d, line) == d,
    ensures
        apply_lines(c, lines.push(line) + rest) == apply_lines(c, lines + rest),
    decreases rest.len(),
{
    if rest.len() == 0 {
        assert(lines.push(line) + rest =~= lines.push(line));
        assert(lines + rest =~= lines);
        assert(lines.push(line).drop_last() =~= lines);
        assert(apply_line(apply_lines(c, lines), line) == apply_lines(c, lines));
    } else {
        let r2 = rest.drop_last();
        lemma_neutral_line(c, lines, line, r2);
        assert((lines.push(line) + rest).drop_last() =~= lines.push(line) + r2);
        assert((lines + rest).drop_last() =~= lines + r2);
    }
}

/// Blank and comment lines are ignored. A line without `=` changes nothing,
/// is reported with its number, and the lines after it are read as if it were
/// absent. A key and its value are trimmed before use, and `auto_enable` is
/// true exactly for `true` and `1`.
pub proof fn lemma_config_lines(
    c: ConfigView,
    lines: Seq<Seq<char>>,
    line: Seq<char>,
    rest: Seq<Seq<char>>,
    lineno: nat,
    val: Seq<char>,
)
    ensures
        is_skipped(line) ==> apply_line(c, line) == c && line_warning(lineno, line) is None
            && apply_lines(c, lines.push(line) + rest) == apply_lines(c, lines + rest),
        !is_skipped(line) && split_once(trimmed(line), "="@) is None ==> apply_line(c, line) == c
            && line_warning(lineno, line) == Some(WarningView::MissingEquals(lineno))
            && apply_lines(c, lines.push(line) + rest) == apply_lines(c, lines + rest),
        !is_skipped(line) ==> (split_once(trimmed(line), "="@) matches Some((k, v))
            ==> apply_line(c, line) == set_option(c, trimmed(k), trimmed(v))),
        set_option(c, "auto_enable"@, val).auto_enable == (val == "true"@ || val == "1"@),
{
    if is_skipped(line) || split_once(trimmed(line), "="@) is None {
        lemma_neutral_line(c, lines, line, rest);
    }
    reveal_strlit("auto_enable");
    reveal_strlit("streaming_workspace");
    reveal_strlit("physical_monitor");
    reveal_strlit("virtual_resolution");
    reveal_strlit("on_streaming_enter");
    reveal_strlit("on_streaming_leave");
    reveal_strlit("on_enable");
    reveal_strlit("on_disable");
    let a = "auto_enable"@;
    assert(a.len() == 11);
    assert(a != "streaming_workspace"@ && a != "physical_monitor"@ && a != "virtual_resolution"@
        && a != "on_streaming_enter"@ && a != "on_streaming_leave"@ && a != "on_enable"@
        && a != "on_disable"@) by {
        assert("streaming_workspace"@.len() == 19);
        assert("physical_monitor"@.len() == 16);
        assert("virtual_resolution"@.len() == 18);
        assert("on_streaming_enter"@.len() == 18);
        assert("on_streaming_leave"@.len() == 18);
        assert("on_enable"@.len() == 9);
        assert("on_disable"@.len() == 10);
    }
}

} // verus!
