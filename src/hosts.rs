use vstd::prelude::*;
use vstd::string::*;

verus! {

#[verifier::external_type_specification]
#[verifier::external_body]
pub struct ExSshParserError(ssh2_config::SshParserError);

/// Why the list of known hosts could not be had.
#[derive(Clone, Copy, Debug, PartialEq, Eq, Structural)]
pub enum ConfigError {
    /// The configuration file could not be read.
    Unreadable,
    /// The configuration text is not a valid ssh configuration.
    Malformed,
}

/// Every pattern of each `Host` block of an ssh configuration text, blocks
/// and patterns in order, as ssh2_config reads it; `None` when it refuses the
/// text. Which option names it knows is fixed per build target (some exist on
/// macOS only), so this is one function of the text for each target.
pub uninterp spec fn config_patterns(text: Seq<char>) -> Option<Seq<Seq<Seq<char>>>>;

pub open spec fn block_views(v: Seq<Vec<String>>) -> Seq<Seq<Seq<char>>> {
    v.map_values(|b: Vec<String>| b@.map_values(|s: String| s@))
}

/// Relies on ssh2_config's `SshConfig::parse` (strict rules) and
/// `SshConfig::get_hosts`: the parsed host blocks in file order, each with
/// its patterns in order.
#[verifier::external_body]
fn host_patterns(text: &str) -> (r: Result<Vec<Vec<String>>, ssh2_config::SshParserError>)
    ensures
        match r {
            Ok(v) => config_patterns(text@) == Some(block_views(v@)),
            Err(_) => config_patterns(text@) is None,
        },
{
    let config = ssh2_config::SshConfig::default().parse(
        &mut text.as_bytes(),
        ssh2_config::ParseRule::STRICT,
    )?;
    Ok(config.get_hosts().iter().map(|h| h.pattern.iter().map(|c| c.pattern.clone()).collect()).collect())
}

/// The pattern that matches every host.
pub open spec fn is_wildcard(p: Seq<char>) -> bool {
    p == seq!['*']
}

/// The host names worth showing: the first pattern of each block, but the
/// catch-all `*`, in order; a block without patterns shows nothing.
pub open spec fn visible_hosts(p: Seq<Seq<Seq<char>>>) -> Seq<Seq<char>>
    decreases p.len(),
{
    if p.len() == 0 {
        Seq::empty()
    } else {
        let rest = visible_hosts(p.drop_last());
        let b = p.last();
        if b.len() == 0 || is_wildcard(b[0]) {
            rest
        } else {
            rest.push(b[0])
        }
    }
}

/// Picks the host names to show out of the patterns of each host block.
pub fn visible_host_names(blocks: &Vec<Vec<String>>) -> (r: Vec<String>)
    ensures
        r@.map_values(|s: String| s@) == visible_hosts(block_views(blocks@)),
{
    let mut r: Vec<String> = Vec::new();
    let mut k: usize = 0;
    while k < blocks.len()
        invariant
            k <= blocks@.len(),
            r@.map_values(|s: String| s@) == visible_hosts(
                block_views(blocks@.subrange(0, k as int)),
            ),
        decreases blocks@.len() - k,
    {
        let ghost before = r@;
        let ghost pre = block_views(blocks@.subrange(0, k as int));
        let ghost cur = block_views(blocks@.subrange(0, k + 1));
        assert(cur.drop_last() =~= pre);
        let block = &blocks[k];
        assert(cur.last() == block@.map_values(|s: String| s@));
        if block.len() > 0 {
            let h = &block[0];
            let s = h.as_str();
            let wild = s.unicode_len() == 1 && s.get_char(0) == '*';
            assert(wild == is_wildcard(h@)) by {
                if h@.len() == 1 && h@[0] == '*' {
                    assert(h@ =~= seq!['*']);
                }
            }
            if !wild {
                r.push(h.clone());
                assert(r@.map_values(|s: String| s@) =~= before.map_values(|s: String| s@).push(
                    h@,
                ));
            }
        }
        k = k + 1;
    }
    assert(blocks@.subrange(0, k as int) =~= blocks@);
    r
}

/// The host names that an ssh configuration text declares, but the catch-all
/// `*`; `Malformed` when the text is no valid configuration.
pub fn get_hosts(text: &str) -> (r: Result<Vec<String>, ConfigError>)
    ensures
        match r {
            Ok(v) => config_patterns(text@) is Some && v@.map_values(|s: String| s@)
                == visible_hosts(config_patterns(text@).unwrap()),
            Err(e) => e == ConfigError::Malformed && config_patterns(text@) is None,
        },
{
    match host_patterns(text) {
        Ok(p) => Ok(visible_host_names(&p)),
        Err(_) => Err(ConfigError::Malformed),
    }
}

} // verus!
