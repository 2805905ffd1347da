//! Process configuration: the private token file's `NAME=value` lines,
//! the environment overrides, and the defaults each setting falls back
//! to.
use vstd::prelude::*;

use crate::text::contains_char;
use crate::text::find_char;
use crate::text::first_index_of;
use crate::text::lemma_first_index_of;
use crate::text::lines_of;
use crate::text::lower_of;
use crate::text::lowercase;
use crate::text::split_lines;
use crate::text::str_eq;
use crate::text::trim_str;
use crate::text::trimmed;

verus! {

/// The name before the first `=` of one line, trimmed.
pub open spec fn env_key(line: Seq<char>) -> Seq<char> {
    trimmed(line.take(first_index_of(line, '=')))
}

/// The value after the first `=` of one line, trimmed.
pub open spec fn env_val(line: Seq<char>) -> Seq<char> {
    trimmed(line.skip(first_index_of(line, '=') + 1))
}

/// The value of the last line naming this key; lines without an `=`
/// carry nothing.
pub open spec fn env_lookup_lines(lines: Seq<Seq<char>>, key: Seq<char>) -> Option<Seq<char>>
    decreases lines.len(),
{
    if lines.len() == 0 {
        None
    } else if contains_char(lines.last(), '=') && env_key(lines.last()) == key {
        Some(env_val(lines.last()))
    } else {
        env_lookup_lines(lines.drop_last(), key)
    }
}

/// Looks a key up in a `NAME=value` file's text.
pub open spec fn env_lookup(content: Seq<char>, key: Seq<char>) -> Option<Seq<char>> {
    env_lookup_lines(lines_of(content), key)
}

/// The token file's value, or empty where the file does not carry the
/// key.
pub open spec fn token_or_empty(content: Seq<char>, key: Seq<char>) -> Seq<char> {
    match env_lookup(content, key) {
        Some(v) => v,
        None => Seq::empty(),
    }
}

fn env_lookup_exec(lines: &Vec<String>, key: &str) -> (r: Option<String>)
    ensures
        r.deep_view() == env_lookup_lines(lines.deep_view(), key@),
{
    let ghost lv = lines.deep_view();
    let n = lines.len();
    let mut j: usize = n;
    proof {
        assert(lv.take(n as int) =~= lv);
    }
    while j > 0
        invariant
            n == lines@.len(),
            lv == lines.deep_view(),
            j <= n,
            env_lookup_lines(lv, key@) == env_lookup_lines(lv.take(j as int), key@),
        decreases j,
    {
        let line: &str = lines[j - 1].as_str();
        proof {
            assert(lv[j - 1] == lines@[j - 1]@);
            assert(lv.take(j as int).drop_last() =~= lv.take(j - 1));
            assert(lv.take(j as int).last() == lv[j - 1]);
        }
        let llen: usize = line.unicode_len();
        let ci = find_char(line, '=');
        proof {
            lemma_first_index_of(line@, '=');
        }
        if ci < llen {
            let k = trim_str(line.substring_char(0, ci));
            proof {
                assert(line@.subrange(0, ci as int) =~= line@.take(first_index_of(line@, '=')));
            }
            if str_eq(k.as_str(), key) {
                let rawv = line.substring_char(ci + 1, llen);
                proof {
                    assert(rawv@ =~= line@.skip(first_index_of(line@, '=') + 1));
                }
                return Some(trim_str(rawv));
            }
        }
        j -= 1;
    }
    proof {
        assert(lv.take(0) =~= Seq::<Seq<char>>::empty());
    }
    None
}

/// Looks a key up in the token file's text: `NAME=value` lines, names
/// and values trimmed, the last line naming the key wins.
pub fn token_file_lookup(content: &str, key: &str) -> (r: Option<String>)
    ensures
        r.deep_view() == env_lookup(content@, key@),
{
    let lines = split_lines(content);
    env_lookup_exec(&lines, key)
}

fn token_or_empty_exec(lines: &Vec<String>, key: &str) -> (r: String)
    ensures
        r@ == (match env_lookup_lines(lines.deep_view(), key@) {
            Some(v) => v,
            None => Seq::<char>::empty(),
        }),
{
    match env_lookup_exec(lines, key) {
        Some(v) => v,
        None => String::new(),
    }
}

fn env_or(v: &Option<String>, default: &str) -> (r: String)
    ensures
        r@ == (match v {
            Some(x) => x@,
            None => default@,
        }),
{
    match v {
        Some(x) => x.clone(),
        None => default.to_owned(),
    }
}

/// A flag setting is on exactly when it lowercases to `true`.
pub open spec fn flag_on(v: Seq<char>) -> bool {
    lower_of(v) == "true"@
}

fn flag_of(v: &Option<String>, default: &str) -> (r: bool)
    ensures
        r == flag_on(
            match v {
                Some(x) => x@,
                None => default@,
            },
        ),
{
    let s = env_or(v, default);
    let l = lowercase(s.as_str());
    str_eq(l.as_str(), "true")
}

/// The settings the process runs with.
pub struct Config {
    pub user_id: String,
    pub bearer_token: String,
    pub auth_token: String,
    pub ct0: String,
    pub personalization_id: String,
    pub user_agent: String,
    pub x_client_uuid: String,
    pub x_client_transaction_id: String,
    pub count: String,
    pub all: bool,
    pub download_dir: String,
    pub download_record: String,
    pub file_format: String,
    pub auto_organize: bool,
    pub target_dir: String,
    pub likes_api_url: String,
    pub likes_features: String,
    pub likes_fieldtoggles: String,
    pub tweet_detail_api_url: String,
    pub tweet_features: String,
    pub tweet_fieldtoggles: String,
    pub mock_mode: bool,
    pub mock_liked_tweets_file: String,
}

/// The overriding environment values, where they were set.
pub struct EnvOverrides {
    pub count: Option<String>,
    pub all: Option<String>,
    pub download_dir: Option<String>,
    pub download_record: Option<String>,
    pub file_format: Option<String>,
    pub auto_organize: Option<String>,
    pub target_dir: Option<String>,
    pub likes_api_url: Option<String>,
    pub likes_features: Option<String>,
    pub likes_fieldtoggles: Option<String>,
    pub tweet_detail_api_url: Option<String>,
    pub tweet_features: Option<String>,
    pub tweet_fieldtoggles: Option<String>,
    pub mock_mode: Option<String>,
    pub mock_liked_tweets_file: Option<String>,
}

impl Config {
    /// Builds the configuration from the token file's text and the
    /// environment overrides: credentials come from the file (empty
    /// where absent), every other setting from the environment or its
    /// default, flags by a case-folded comparison with `true`.
    pub fn from_sources(tokens_content: &str, env: &EnvOverrides) -> (r: Config)
        ensures
            r.user_id@ == token_or_empty(tokens_content@, "USER_ID"@),
            r.bearer_token@ == token_or_empty(tokens_content@, "BEARER_TOKEN"@),
            r.auth_token@ == token_or_empty(tokens_content@, "AUTH_TOKEN"@),
            r.ct0@ == token_or_empty(tokens_content@, "CT0"@),
            r.personalization_id@ == token_or_empty(tokens_content@, "PERSONALIZATION_ID"@),
            r.user_agent@ == token_or_empty(tokens_content@, "USER_AGENT"@),
            r.x_client_uuid@ == token_or_empty(tokens_content@, "X_CLIENT_UUID"@),
            r.x_client_transaction_id@ == token_or_empty(
                tokens_content@,
                "X_CLIENT_TRANSACTION_ID"@,
            ),
            r.count@ == (match env.count {
                Some(v) => v@,
                None => "20"@,
            }),
            r.all == flag_on(
                match env.all {
                    Some(v) => v@,
                    None => "False"@,
                },
            ),
            r.download_dir@ == (match env.download_dir {
                Some(v) => v@,
                None => "data/downloads"@,
            }),
            r.download_record@ == (match env.download_record {
                Some(v) => v@,
                None => "data/downloaded_tweet_ids.txt"@,
            }),
            r.file_format@ == (match env.file_format {
                Some(v) => v@,
                None => "{USERNAME} {ID}"@,
            }),
            r.auto_organize == flag_on(
                match env.auto_organize {
                    Some(v) => v@,
                    None => "False"@,
                },
            ),
            r.target_dir@ == (match env.target_dir {
                Some(v) => v@,
                None => "data/organized"@,
            }),
            r.likes_api_url@ == (match env.likes_api_url {
                Some(v) => v@,
                None => "https://x.com/i/api/graphql/nWpDa3j6UoobbTNcFu_Uog/Likes"@,
            }),
            r.likes_features@ == (match env.likes_features {
                Some(v) => v@,
                None => r#"{"rweb_video_screen_enabled":false,"profile_label_improvements_pcf_label_in_post_enabled":true,"rweb_tipjar_consumption_enabled":true,"responsive_web_graphql_exclude_directive_enabled":true,"verified_phone_label_enabled":false,"creator_subscriptions_tweet_preview_api_enabled":true,"responsive_web_graphql_timeline_navigation_enabled":true,"responsive_web_graphql_skip_user_profile_image_extensions_enabled":false,"premium_content_api_read_enabled":false,"communities_web_enable_tweet_community_results_fetch":true,"c9s_tweet_anatomy_moderator_badge_enabled":true,"responsive_web_grok_analyze_button_fetch_trends_enabled":false,"responsive_web_grok_analyze_post_followups_enabled":true,"responsive_web_jetfuel_frame":false,"responsive_web_grok_share_attachment_enabled":true,"articles_preview_enabled":true,"responsive_web_edit_tweet_api_enabled":true,"graphql_is_translatable_rweb_tweet_is_translatable_enabled":true,"view_counts_everywhere_api_enabled":true,"longform_notetweets_consumption_enabled":true,"responsive_web_twitter_article_tweet_consumption_enabled":true,"tweet_awards_web_tipping_enabled":false,"responsive_web_grok_analysis_button_from_backend":false,"creator_subscriptions_quote_tweet_preview_enabled":false,"freedom_of_speech_not_reach_fetch_enabled":true,"standardized_nudges_misinfo":true,"tweet_with_visibility_results_prefer_gql_limited_actions_policy_enabled":true,"rweb_video_timestamps_enabled":true,"longform_notetweets_rich_text_read_enabled":true,"longform_notetweets_inline_media_enabled":true,"responsive_web_grok_image_annotation_enabled":false,"responsive_web_enhance_cards_enabled":false}"#@,
            }),
            r.likes_fieldtoggles@ == (match env.likes_fieldtoggles {
                Some(v) => v@,
                None => r#"{"withArticlePlainText":false}"#@,
            }),
            r.tweet_detail_api_url@ == (match env.tweet_detail_api_url {
                Some(v) => v@,
                None => "https://x.com/i/api/graphql/_8aYOgEDz35BrBcBal1-_w/TweetDetail"@,
            }),
            r.tweet_features@ == (match env.tweet_features {
                Some(v) => v@,
                None => r#"{"rweb_video_screen_enabled":false,"profile_label_improvements_pcf_label_in_post_enabled":true,"rweb_tipjar_consumption_enabled":true,"verified_phone_label_enabled":false,"creator_subscriptions_tweet_preview_api_enabled":true,"responsive_web_graphql_timeline_navigation_enabled":true,"responsive_web_graphql_skip_user_profile_image_extensions_enabled":false,"premium_content_api_read_enabled":false,"communities_web_enable_tweet_community_results_fetch":true,"c9s_tweet_anatomy_moderator_badge_enabled":true,"responsive_web_grok_analyze_button_fetch_trends_enabled":false,"responsive_web_grok_analyze_post_followups_enabled":true,"responsive_web_jetfuel_frame":false,"responsive_web_grok_share_attachment_enabled":true,"articles_preview_enabled":true,"responsive_web_edit_tweet_api_enabled":true,"graphql_is_translatable_rweb_tweet_is_translatable_enabled":true,"view_counts_everywhere_api_enabled":true,"longform_notetweets_consumption_enabled":true,"responsive_web_twitter_article_tweet_consumption_enabled":true,"tweet_awards_web_tipping_enabled":false,"responsive_web_grok_show_grok_translated_post":false,"responsive_web_grok_analysis_button_from_backend":false,"creator_subscriptions_quote_tweet_preview_enabled":false,"freedom_of_speech_not_reach_fetch_enabled":true,"standardized_nudges_misinfo":true,"tweet_with_visibility_results_prefer_gql_limited_actions_policy_enabled":true,"longform_notetweets_rich_text_read_enabled":true,"longform_notetweets_inline_media_enabled":true,"responsive_web_grok_image_annotation_enabled":true,"responsive_web_enhance_cards_enabled":false}"#@,
            }),
            r.tweet_fieldtoggles@ == (match env.tweet_fieldtoggles {
                Some(v) => v@,
                None =>
                    r#"{"withArticleRichContentState":true,"withArticlePlainText":false,"withGrokAnalyze":false,"withDisallowedReplyControls":false}"#@,
            }),
            r.mock_mode == flag_on(
                match env.mock_mode {
                    Some(v) => v@,
                    None => "False"@,
                },
            ),
            r.mock_liked_tweets_file@ == (match env.mock_liked_tweets_file {
                Some(v) => v@,
                None => "data/mock/mock_liked_tweets.json"@,
            }),
    {
        let lines = split_lines(tokens_content);
        Config {
            user_id: token_or_empty_exec(&lines, "USER_ID"),
            bearer_token: token_or_empty_exec(&lines, "BEARER_TOKEN"),
            auth_token: token_or_empty_exec(&lines, "AUTH_TOKEN"),
            ct0: token_or_empty_exec(&lines, "CT0"),
            personalization_id: token_or_empty_exec(&lines, "PERSONALIZATION_ID"),
            user_agent: token_or_empty_exec(&lines, "USER_AGENT"),
            x_client_uuid: token_or_empty_exec(&lines, "X_CLIENT_UUID"),
            x_client_transaction_id: token_or_empty_exec(&lines, "X_CLIENT_TRANSACTION_ID"),
            count: env_or(&env.count, "20"),
            all: flag_of(&env.all, "False"),
            download_dir: env_or(&env.download_dir, "data/downloads"),
            download_record: env_or(&env.download_record, "data/downloaded_tweet_ids.txt"),
            file_format: env_or(&env.file_format, "{USERNAME} {ID}"),
            auto_organize: flag_of(&env.auto_organize, "False"),
            target_dir: env_or(&env.target_dir, "data/organized"),
            likes_api_url: env_or(
                &env.likes_api_url,
                "https://x.com/i/api/graphql/nWpDa3j6UoobbTNcFu_Uog/Likes",
            ),
            likes_features: env_or(&env.likes_features, default_likes_features()),
            likes_fieldtoggles: env_or(
                &env.likes_fieldtoggles,
                r#"{"withArticlePlainText":false}"#,
            ),
            tweet_detail_api_url: env_or(
                &env.tweet_detail_api_url,
                "https://x.com/i/api/graphql/_8aYOgEDz35BrBcBal1-_w/TweetDetail",
            ),
            tweet_features: env_or(&env.tweet_features, default_tweet_features()),
            tweet_fieldtoggles: env_or(
                &env.tweet_fieldtoggles,
                r#"{"withArticleRichContentState":true,"withArticlePlainText":false,"withGrokAnalyze":false,"withDisallowedReplyControls":false}"#,
            ),
            mock_mode: flag_of(&env.mock_mode, "False"),
            mock_liked_tweets_file: env_or(
                &env.mock_liked_tweets_file,
                "data/mock/mock_liked_tweets.json",
            ),
        }
    }
}

/// The feature flags the likes endpoint is called with by default.
pub fn default_likes_features() -> (r: &'static str)
    ensures
        r@
            == r#"{"rweb_video_screen_enabled":false,"profile_label_improvements_pcf_label_in_post_enabled":true,"rweb_tipjar_consumption_enabled":true,"responsive_web_graphql_exclude_directive_enabled":true,"verified_phone_label_enabled":false,"creator_subscriptions_tweet_preview_api_enabled":true,"responsive_web_graphql_timeline_navigation_enabled":true,"responsive_web_graphql_skip_user_profile_image_extensions_enabled":false,"premium_content_api_read_enabled":false,"communities_web_enable_tweet_community_results_fetch":true,"c9s_tweet_anatomy_moderator_badge_enabled":true,"responsive_web_grok_analyze_button_fetch_trends_enabled":false,"responsive_web_grok_analyze_post_followups_enabled":true,"responsive_web_jetfuel_frame":false,"responsive_web_grok_share_attachment_enabled":true,"articles_preview_enabled":true,"responsive_web_edit_tweet_api_enabled":true,"graphql_is_translatable_rweb_tweet_is_translatable_enabled":true,"view_counts_everywhere_api_enabled":true,"longform_notetweets_consumption_enabled":true,"responsive_web_twitter_article_tweet_consumption_enabled":true,"tweet_awards_web_tipping_enabled":false,"responsive_web_grok_analysis_button_from_backend":false,"creator_subscriptions_quote_tweet_preview_enabled":false,"freedom_of_speech_not_reach_fetch_enabled":true,"standardized_nudges_misinfo":true,"tweet_with_visibility_results_prefer_gql_limited_actions_policy_enabled":true,"rweb_video_timestamps_enabled":true,"longform_notetweets_rich_text_read_enabled":true,"longform_notetweets_inline_media_enabled":true,"responsive_web_grok_image_annotation_enabled":false,"responsive_web_enhance_cards_enabled":false}"#@,
{
    r#"{"rweb_video_screen_enabled":false,"profile_label_improvements_pcf_label_in_post_enabled":true,"rweb_tipjar_consumption_enabled":true,"responsive_web_graphql_exclude_directive_enabled":true,"verified_phone_label_enabled":false,"creator_subscriptions_tweet_preview_api_enabled":true,"responsive_web_graphql_timeline_navigation_enabled":true,"responsive_web_graphql_skip_user_profile_image_extensions_enabled":false,"premium_content_api_read_enabled":false,"communities_web_enable_tweet_community_results_fetch":true,"c9s_tweet_anatomy_moderator_badge_enabled":true,"responsive_web_grok_analyze_button_fetch_trends_enabled":false,"responsive_web_grok_analyze_post_followups_enabled":true,"responsive_web_jetfuel_frame":false,"responsive_web_grok_share_attachment_enabled":true,"articles_preview_enabled":true,"responsive_web_edit_tweet_api_enabled":true,"graphql_is_translatable_rweb_tweet_is_translatable_enabled":true,"view_counts_everywhere_api_enabled":true,"longform_notetweets_consumption_enabled":true,"responsive_web_twitter_article_tweet_consumption_enabled":true,"tweet_awards_web_tipping_enabled":false,"responsive_web_grok_analysis_button_from_backend":false,"creator_subscriptions_quote_tweet_preview_enabled":false,"freedom_of_speech_not_reach_fetch_enabled":true,"standardized_nudges_misinfo":true,"tweet_with_visibility_results_prefer_gql_limited_actions_policy_enabled":true,"rweb_video_timestamps_enabled":true,"longform_notetweets_rich_text_read_enabled":true,"longform_notetweets_inline_media_enabled":true,"responsive_web_grok_image_annotation_enabled":false,"responsive_web_enhance_cards_enabled":false}"#
}

/// The feature flags the detail endpoint is called with by default.
pub fn default_tweet_features() -> (r: &'static str)
    ensures
        r@
            == r#"{"rweb_video_screen_enabled":false,"profile_label_improvements_pcf_label_in_post_enabled":true,"rweb_tipjar_consumption_enabled":true,"verified_phone_label_enabled":false,"creator_subscriptions_tweet_preview_api_enabled":true,"responsive_web_graphql_timeline_navigation_enabled":true,"responsive_web_graphql_skip_user_profile_image_extensions_enabled":false,"premium_content_api_read_enabled":false,"communities_web_enable_tweet_community_results_fetch":true,"c9s_tweet_anatomy_moderator_badge_enabled":true,"responsive_web_grok_analyze_button_fetch_trends_enabled":false,"responsive_web_grok_analyze_post_followups_enabled":true,"responsive_web_jetfuel_frame":false,"responsive_web_grok_share_attachment_enabled":true,"articles_preview_enabled":true,"responsive_web_edit_tweet_api_enabled":true,"graphql_is_translatable_rweb_tweet_is_translatable_enabled":true,"view_counts_everywhere_api_enabled":true,"longform_notetweets_consumption_enabled":true,"responsive_web_twitter_article_tweet_consumption_enabled":true,"tweet_awards_web_tipping_enabled":false,"responsive_web_grok_show_grok_translated_post":false,"responsive_web_grok_analysis_button_from_backend":false,"creator_subscriptions_quote_tweet_preview_enabled":false,"freedom_of_speech_not_reach_fetch_enabled":true,"standardized_nudges_misinfo":true,"tweet_with_visibility_results_prefer_gql_limited_actions_policy_enabled":true,"longform_notetweets_rich_text_read_enabled":true,"longform_notetweets_inline_media_enabled":true,"responsive_web_grok_image_annotation_enabled":true,"responsive_web_enhance_cards_enabled":false}"#@,
{
    r#"{"rweb_video_screen_enabled":false,"profile_label_improvements_pcf_label_in_post_enabled":true,"rweb_tipjar_consumption_enabled":true,"verified_phone_label_enabled":false,"creator_subscriptions_tweet_preview_api_enabled":true,"responsive_web_graphql_timeline_navigation_enabled":true,"responsive_web_graphql_skip_user_profile_image_extensions_enabled":false,"premium_content_api_read_enabled":false,"communities_web_enable_tweet_community_results_fetch":true,"c9s_tweet_anatomy_moderator_badge_enabled":true,"responsive_web_grok_analyze_button_fetch_trends_enabled":false,"responsive_web_grok_analyze_post_followups_enabled":true,"responsive_web_jetfuel_frame":false,"responsive_web_grok_share_attachment_enabled":true,"articles_preview_enabled":true,"responsive_web_edit_tweet_api_enabled":true,"graphql_is_translatable_rweb_tweet_is_translatable_enabled":true,"view_counts_everywhere_api_enabled":true,"longform_notetweets_consumption_enabled":true,"responsive_web_twitter_article_tweet_consumption_enabled":true,"tweet_awards_web_tipping_enabled":false,"responsive_web_grok_show_grok_translated_post":false,"responsive_web_grok_analysis_button_from_backend":false,"creator_subscriptions_quote_tweet_preview_enabled":false,"freedom_of_speech_not_reach_fetch_enabled":true,"standardized_nudges_misinfo":true,"tweet_with_visibility_results_prefer_gql_limited_actions_policy_enabled":true,"longform_notetweets_rich_text_read_enabled":true,"longform_notetweets_inline_media_enabled":true,"responsive_web_grok_image_annotation_enabled":true,"responsive_web_enhance_cards_enabled":false}"#
}

} // verus!
