//! The secrets the enabled services need, taken from the environment.

use vstd::prelude::*;

use crate::config_services::ConfigServices;

verus! {

/// The Discord bot's secrets.
pub struct SecretsDiscord {
    pub bot_token: String,
}

/// The secrets of the services.
pub struct SecretsServices {
    pub discord: Option<SecretsDiscord>,
}

/// All secrets of the program.
pub struct Secrets {
    pub services: SecretsServices,
}

/// Why the secrets could not be gathered.
#[derive(Debug)]
pub enum SecretsError {
    /// The Discord bot is enabled but `DISCORD_BOT_TOKEN` is not set (or is
    /// not valid Unicode).
    MissingDiscordBotToken,
}

/// Gathers the secrets of the enabled services; `discord_bot_token` is the
/// value of `DISCORD_BOT_TOKEN`, if it is set. The token is required exactly
/// when the Discord bot is enabled, and ignored otherwise.
pub fn get_secrets(config: &ConfigServices, discord_bot_token: Option<String>) -> (r: Result<Secrets, SecretsError>)
    ensures
        !config.discord.enabled ==> (r matches Ok(s) && s.services.discord is None),
        config.discord.enabled && discord_bot_token is None ==> r matches Err(SecretsError::MissingDiscordBotToken),
        config.discord.enabled && discord_bot_token is Some ==> (r matches Ok(s)
            && s.services.discord matches Some(d) && d.bot_token@ == discord_bot_token->0@),
{
    let mut secrets = Secrets { services: SecretsServices { discord: None } };
    if config.discord.enabled {
        match discord_bot_token {
            Some(bot_token) => {
                secrets.services.discord = Some(SecretsDiscord { bot_token });
            },
            None => {
                return Err(SecretsError::MissingDiscordBotToken);
            },
        }
    }
    Ok(secrets)
}

} // verus!
