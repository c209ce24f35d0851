//! The reader's configuration: where the database lives, how to reach the
//! model server, and which feeds to subscribe to on first run.
//!
//! Reading the file and parsing it happen outside this library; here are the
//! defaults, the resolution of the database path and the text written back.

use vstd::prelude::*;
use crate::text::{chars_of, decimal, push_decimal, string_from};

verus! {

/// The whole configuration.
#[derive(Debug, Clone)]
pub struct Config {
    pub general: General,
    pub ollama: Ollama,
    pub feeds: Feeds,
}

/// General settings.
#[derive(Debug, Clone)]
pub struct General {
    pub poll_interval_secs: u64,
    pub db_path: String,
}

/// How to reach the model server, and which models to use.
#[derive(Debug, Clone)]
pub struct Ollama {
    pub endpoint: String,
    pub model: String,
    pub embed_model: String,
}

/// The feeds subscribed to on first run.
#[derive(Debug, Clone)]
pub struct Feeds {
    pub urls: Vec<String>,
}

/// `rel` joined onto `base` as a Unix path: an absolute `rel` replaces `base`,
/// and a separator is put between them unless `base` is empty or ends in one.
pub open spec fn join_path_spec(base: Seq<char>, rel: Seq<char>) -> Seq<char> {
    if rel.len() > 0 && rel[0] == '/' {
        rel
    } else if base.len() == 0 || base.last() == '/' {
        base + rel
    } else {
        base + "/"@ + rel
    }
}

/// `rel` joined onto `base` as a Unix path.
pub fn join_path(base: &str, rel: &str) -> (r: String)
    ensures
        r@ == join_path_spec(base@, rel@),
{
    let b = chars_of(base);
    let rc = chars_of(rel);
    if rc.len() > 0 && rc[0] == '/' {
        return string_from(&rc);
    }
    let mut s = string_from(&b);
    if b.len() > 0 && b[b.len() - 1] != '/' {
        s.append("/");
    }
    s.append(rel);
    s
}

/// The directory of the reader's data under the home directory `home`.
pub fn data_dir(home: &str) -> (r: String)
    ensures
        r@ == join_path_spec(home@, ".local/share/nuzzle"@),
{
    join_path(home, ".local/share/nuzzle")
}

/// The configuration file under the home directory `home`.
pub fn config_path(home: &str) -> (r: String)
    ensures
        r@ == join_path_spec(home@, ".config/nuzzle/config.toml"@),
{
    join_path(home, ".config/nuzzle/config.toml")
}

/// The directory of the tool scripts under the home directory `home`: beside
/// the configuration file.
pub fn tools_dir(home: &str) -> (r: String)
    ensures
        r@ == join_path_spec(home@, ".config/nuzzle/tools"@),
{
    join_path(home, ".config/nuzzle/tools")
}

/// Whether a database path stands for the default one: the path `default`,
/// possibly followed by separators and `.` components.
pub open spec fn is_default_path(p: Seq<char>) -> bool {
    &&& p.len() >= 7
    &&& p.take(7) == "default"@
    &&& forall|i: int| #![trigger p[i]] 7 <= i < p.len() ==> (p[i] == '/' || (p[i] == '.' && p[i - 1] == '/' && (i + 1 == p.len() || p[i + 1] == '/')))
}

/// Whether a database path stands for the default one.
pub fn is_default_db_path(p: &str) -> (b: bool)
    ensures
        b == is_default_path(p@),
{
    let cs = chars_of(p);
    let n = cs.len();
    proof {
        reveal_strlit("default");
    }
    if n < 7 || cs[0] != 'd' || cs[1] != 'e' || cs[2] != 'f' || cs[3] != 'a' || cs[4] != 'u' || cs[5] != 'l' || cs[6] != 't' {
        proof {
            if n >= 7 && cs@.take(7) == "default"@ {
                assert(cs@.take(7)[0] == 'd' && cs@.take(7)[1] == 'e' && cs@.take(7)[2] == 'f');
                assert(cs@.take(7)[3] == 'a' && cs@.take(7)[4] == 'u' && cs@.take(7)[5] == 'l' && cs@.take(7)[6] == 't');
            }
        }
        return false;
    }
    assert(cs@.take(7) =~= "default"@);
    let mut i: usize = 7;
    while i < n
        invariant
            7 <= i <= n,
            n == cs@.len(),
            cs@ == p@,
            cs@.take(7) == "default"@,
            forall|j: int| #![trigger cs@[j]] 7 <= j < i ==> (cs@[j] == '/' || (cs@[j] == '.' && cs@[j - 1] == '/' && (j + 1 == cs@.len() || cs@[j + 1] == '/'))),
        decreases n - i,
    {
        let c = cs[i];
        let ok = c == '/' || (c == '.' && cs[i - 1] == '/' && (i + 1 == n || cs[i + 1] == '/'));
        if !ok {
            assert(p@[i as int] == cs@[i as int]);
            return false;
        }
        i = i + 1;
    }
    true
}

/// The database path a configured one stands for: `feeds.db` in the data
/// directory for the default one, else the path itself.
pub open spec fn resolved_db_path(p: Seq<char>, data_dir: Seq<char>) -> Seq<char> {
    if is_default_path(p) { join_path_spec(data_dir, "feeds.db"@) } else { p }
}

/// Resolving the database path twice gives what resolving it once gives.
pub proof fn law_resolve_idempotent(p: Seq<char>, data_dir: Seq<char>)
    ensures
        resolved_db_path(resolved_db_path(p, data_dir), data_dir) == resolved_db_path(p, data_dir),
{
}

/// A configuration naming the database `default` (as the shipped file does)
/// uses the database of the built-in defaults: `feeds.db` in the data directory.
pub proof fn law_default_db_path(data_dir: Seq<char>)
    ensures
        resolved_db_path("default"@, data_dir) == join_path_spec(data_dir, "feeds.db"@),
{
    reveal_strlit("default");
    assert("default"@.take(7) =~= "default"@);
}

/// The lines listing the subscribed feeds in the written configuration.
pub open spec fn url_lines(urls: Seq<String>) -> Seq<char>
    decreases urls.len(),
{
    if urls.len() == 0 {
        seq![]
    } else {
        url_lines(urls.drop_last()) + "  \""@ + urls.last()@ + "\",\n"@
    }
}

/// The text written to the configuration file for `c`.
pub open spec fn toml_text(c: Config) -> Seq<char> {
    "[general]\n"@
        + "poll_interval_secs = "@ + decimal(c.general.poll_interval_secs as nat) + "\n"@
        + "db_path = \""@ + c.general.db_path@ + "\"\n"@
        + "\n[ollama]\n"@
        + "endpoint = \""@ + c.ollama.endpoint@ + "\"\n"@
        + "model = \""@ + c.ollama.model@ + "\"\n"@
        + "embed_model = \""@ + c.ollama.embed_model@ + "\"\n"@
        + "\n[feeds]\n"@
        + "urls = [\n"@ + url_lines(c.feeds.urls@) + "]\n"@
}

impl Config {
    /// The configuration used when there is no file: a ten-minute poll, the
    /// database `feeds.db` in `data_dir`, a local model server and one feed.
    pub fn default_for(data_dir: &str) -> (c: Config)
        ensures
            c.general.poll_interval_secs == 600,
            c.general.db_path@ == join_path_spec(data_dir@, "feeds.db"@),
            c.ollama.endpoint@ == "http://localhost:11434"@,
            c.ollama.model@ == "llama3.2"@,
            c.ollama.embed_model@ == "nomic-embed-text"@,
            c.feeds.urls@.len() == 1,
            c.feeds.urls@[0]@ == "https://hnrss.org/frontpage"@,
    {
        let mut urls: Vec<String> = Vec::new();
        urls.push(String::from_str("https://hnrss.org/frontpage"));
        Config {
            general: General { poll_interval_secs: 600, db_path: join_path(data_dir, "feeds.db") },
            ollama: Ollama {
                endpoint: String::from_str("http://localhost:11434"),
                model: String::from_str("llama3.2"),
                embed_model: String::from_str("nomic-embed-text"),
            },
            feeds: Feeds { urls },
        }
    }

    /// Replace a database path that stands for the default one by `feeds.db`
    /// in `data_dir`; leave any other as it is.
    pub fn resolve_db_path(&mut self, data_dir: &str)
        ensures
            final(self).general.db_path@ == resolved_db_path(old(self).general.db_path@, data_dir@),
            final(self).general.poll_interval_secs == old(self).general.poll_interval_secs,
            final(self).ollama == old(self).ollama,
            final(self).feeds == old(self).feeds,
    {
        if is_default_db_path(self.general.db_path.as_str()) {
            self.general.db_path = join_path(data_dir, "feeds.db");
        }
    }

    /// The text written to the configuration file.
    pub fn to_toml(&self) -> (r: String)
        ensures
            r@ == toml_text(*self),
    {
        let mut s = String::from_str("[general]\n");
        s.append("poll_interval_secs = ");
        push_decimal(&mut s, self.general.poll_interval_secs);
        s.append("\n");
        s.append("db_path = \"");
        s.append(self.general.db_path.as_str());
        s.append("\"\n");
        s.append("\n[ollama]\n");
        s.append("endpoint = \"");
        s.append(self.ollama.endpoint.as_str());
        s.append("\"\n");
        s.append("model = \"");
        s.append(self.ollama.model.as_str());
        s.append("\"\n");
        s.append("embed_model = \"");
        s.append(self.ollama.embed_model.as_str());
        s.append("\"\n");
        s.append("\n[feeds]\n");
        s.append("urls = [\n");
        let ghost head = s@;
        let mut i: usize = 0;
        while i < self.feeds.urls.len()
            invariant
                0 <= i <= self.feeds.urls@.len(),
                s@ == head + url_lines(self.feeds.urls@.take(i as int)),
            decreases self.feeds.urls@.len() - i,
        {
            s.append("  \"");
            s.append(self.feeds.urls[i].as_str());
            s.append("\",\n");
            proof {
                let t = self.feeds.urls@.take(i + 1);
                assert(t.drop_last() =~= self.feeds.urls@.take(i as int));
            }
            i = i + 1;
        }
        assert(self.feeds.urls@.take(self.feeds.urls@.len() as int) =~= self.feeds.urls@);
        s.append("]\n");
        s
    }
}

} // verus!
