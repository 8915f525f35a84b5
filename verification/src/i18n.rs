//! The backend translation tables: language codes, the key-to-text
//! lookup with English fallback, and parameter substitution in
//! translated texts.

use vstd::prelude::*;
use vstd::string::{StrSliceExecFns, StringExecFns};
use crate::strutil::{ascii_lower, lower_of, push_char, str_eq};

verus! {

/// Supported languages.
#[derive(Clone, Copy, Debug, PartialEq, Eq, Hash, Structural)]
pub enum Language {
    English,
    Turkish,
}

impl Default for Language {
    fn default() -> (r: Self)
        ensures
            r == Language::English,
    {
        Language::English
    }
}

/// The short code of a language.
pub open spec fn spec_code(l: Language) -> Seq<char> {
    match l {
        Language::English => "en"@,
        Language::Turkish => "tr"@,
    }
}

/// How a language code from outside is read, case-insensitively.
pub open spec fn spec_from_code(s: Seq<char>) -> Option<Language> {
    let l = lower_of(s);
    if l == "en"@ || l == "en-us"@ || l == "en-gb"@ {
        Some(Language::English)
    } else if l == "tr"@ || l == "tr-tr"@ {
        Some(Language::Turkish)
    } else {
        None
    }
}

impl Language {
    /// The short language code.
    pub fn code(&self) -> (r: &'static str)
        ensures
            r@ == spec_code(*self),
    {
        match self {
            Language::English => "en",
            Language::Turkish => "tr",
        }
    }

    /// The language's own name.
    pub fn native_name(&self) -> (r: &'static str)
        ensures
            *self == Language::English ==> r@ == "English"@,
            *self == Language::Turkish ==> r@ == "T\u{fc}rk\u{e7}e"@,
    {
        match self {
            Language::English => "English",
            Language::Turkish => "T\u{fc}rk\u{e7}e",
        }
    }

    /// Reads a language code, case-insensitively; unknown codes are
    /// `None`.
    pub fn from_code(code: &str) -> (r: Option<Language>)
        ensures
            r == spec_from_code(code@),
    {
        let l = ascii_lower(code);
        if str_eq(l.as_str(), "en") || str_eq(l.as_str(), "en-us") || str_eq(l.as_str(), "en-gb") {
            Some(Language::English)
        } else if str_eq(l.as_str(), "tr") || str_eq(l.as_str(), "tr-tr") {
            Some(Language::Turkish)
        } else {
            None
        }
    }
}

/// The languages offered to the user interface.
pub fn get_available_languages() -> (r: Vec<crate::models::LanguageInfo>)
    ensures
        r@.len() == 2,
        r@[0].code@ == "en"@ && r@[0].native_name@ == "English"@,
        r@[1].code@ == "tr"@ && r@[1].native_name@ == "T\u{fc}rk\u{e7}e"@,
{
    let mut out: Vec<crate::models::LanguageInfo> = Vec::new();
    out.push(
        crate::models::LanguageInfo {
            code: "en".to_owned(),
            native_name: "English".to_owned(),
        },
    );
    out.push(
        crate::models::LanguageInfo {
            code: "tr".to_owned(),
            native_name: "T\u{fc}rk\u{e7}e".to_owned(),
        },
    );
    out
}

/// The first value stored under `key`, if any.
pub open spec fn spec_lookup(
    table: Seq<(&'static str, &'static str)>,
    key: Seq<char>,
) -> Option<Seq<char>>
    decreases table.len(),
{
    if table.len() == 0 {
        None
    } else if table[0].0@ == key {
        Some(table[0].1@)
    } else {
        spec_lookup(table.skip(1), key)
    }
}

/// The first entry carrying `key` characterizes `spec_lookup`.
pub proof fn lemma_lookup_at(table: Seq<(&'static str, &'static str)>, key: Seq<char>, i: int)
    requires
        0 <= i < table.len(),
        table[i].0@ == key,
        forall|j: int| 0 <= j < i ==> (#[trigger] table[j].0@) != key,
    ensures
        spec_lookup(table, key) == Some(table[i].1@),
    decreases i,
{
    if i > 0 {
        assert forall|j: int| 0 <= j < i - 1 implies (#[trigger] table.skip(1)[j].0@) != key by {
            assert(table.skip(1)[j] == table[j + 1]);
        }
        assert(table.skip(1)[i - 1] == table[i]);
        lemma_lookup_at(table.skip(1), key, i - 1);
    }
}

/// All occurrences of `pat` in `s` replaced by `val`, scanning left to
/// right; replacements are not rescanned. An empty pattern replaces
/// nothing.
pub open spec fn spec_replace(s: Seq<char>, pat: Seq<char>, val: Seq<char>) -> Seq<char>
    decreases s.len(),
{
    if pat.len() == 0 || s.len() < pat.len() {
        s
    } else if s.take(pat.len() as int) == pat {
        val + spec_replace(s.skip(pat.len() as int), pat, val)
    } else {
        seq![s[0]] + spec_replace(s.skip(1), pat, val)
    }
}

/// Whether `pat` occurs in `s` at position `i`.
fn match_at(s: &str, pat: &str, i: usize) -> (r: bool)
    requires
        i + pat@.len() <= s@.len(),
    ensures
        r == (s@.skip(i as int).take(pat@.len() as int) == pat@),
{
    let nn = s.unicode_len();
    let m = pat.unicode_len();
    let mut j: usize = 0;
    while j < m
        invariant
            j <= m,
            m == pat@.len(),
            nn == s@.len(),
            i + m <= nn,
            forall|t: int| 0 <= t < j ==> s@[i + t] == pat@[t],
        decreases m - j,
    {
        if s.get_char(i + j) != pat.get_char(j) {
            proof {
                assert(s@.skip(i as int).take(m as int)[j as int] == s@[i + j]);
            }
            return false;
        }
        j = j + 1;
    }
    proof {
        assert(s@.skip(i as int).take(m as int) =~= pat@);
    }
    true
}

/// Replaces every occurrence of `pat` in `s` by `val`, left to right.
pub fn str_replace(s: &str, pat: &str, val: &str) -> (r: String)
    ensures
        r@ == spec_replace(s@, pat@, val@),
{
    let n = s.unicode_len();
    let m = pat.unicode_len();
    if m == 0 {
        return s.to_owned();
    }
    let mut out = String::new();
    let mut i: usize = 0;
    proof {
        assert(s@.skip(0) =~= s@);
    }
    while i < n
        invariant
            i <= n,
            n == s@.len(),
            m == pat@.len(),
            1 <= m,
            out@ + spec_replace(s@.skip(i as int), pat@, val@) == spec_replace(s@, pat@, val@),
        decreases n - i,
    {
        let ghost pre = out@;
        if m <= n - i && match_at(s, pat, i) {
            out.append(val);
            proof {
                assert(s@.skip(i as int).skip(m as int) =~= s@.skip(i as int + m as int));
            }
            i = i + m;
        } else {
            push_char(&mut out, s.get_char(i));
            proof {
                let rest = s@.skip(i as int);
                assert(rest[0] == s@[i as int]);
                if rest.len() < m {
                    assert(spec_replace(rest, pat@, val@) == rest);
                    assert(rest =~= seq![rest[0]] + rest.skip(1));
                    assert(rest.skip(1).len() < m);
                    assert(spec_replace(rest.skip(1), pat@, val@) == rest.skip(1));
                } else {
                    assert(rest.take(m as int) != pat@);
                }
                assert(rest.skip(1) =~= s@.skip(i as int + 1));
                assert(pre.push(s@[i as int]) =~= pre + seq![rest[0]]);
            }
            i = i + 1;
        }
    }
    proof {
        assert(s@.skip(n as int) =~= Seq::<char>::empty());
    }
    out
}

/// A parameter key wrapped in braces: the placeholder that is replaced.
pub open spec fn brace_key(k: Seq<char>) -> Seq<char> {
    seq!['{'] + k + seq!['}']
}

/// The translated text with each parameter's placeholder replaced by
/// its value, applied left to right.
pub open spec fn spec_apply_params(s: Seq<char>, params: Seq<(&str, &str)>) -> Seq<char>
    decreases params.len(),
{
    if params.len() == 0 {
        s
    } else {
        spec_apply_params(
            spec_replace(s, brace_key(params[0].0@), params[0].1@),
            params.skip(1),
        )
    }
}

/// The translation tables and the chosen language.
pub struct Translations {
    current_language: Language,
    en: Vec<(&'static str, &'static str)>,
    tr: Vec<(&'static str, &'static str)>,
}

impl Translations {
    /// The chosen language, for contracts.
    pub closed spec fn language_spec(&self) -> Language {
        self.current_language
    }

    /// The table of a language, for contracts.
    pub closed spec fn table_spec(&self, l: Language) -> Seq<(&'static str, &'static str)> {
        match l {
            Language::English => self.en@,
            Language::Turkish => self.tr@,
        }
    }

    /// What `get` returns: the chosen language's entry, else the
    /// English entry, else the key itself.
    pub open spec fn spec_get(&self, key: Seq<char>) -> Seq<char> {
        match spec_lookup(self.table_spec(self.language_spec()), key) {
            Some(v) => v,
            None => match spec_lookup(self.table_spec(Language::English), key) {
                Some(v) => v,
                None => key,
            },
        }
    }

    /// The built-in tables, with English as the chosen language. Both
    /// languages are populated; the application name and the general
    /// error text are pinned here as known answers.
    pub fn new() -> (r: Translations)
        ensures
            r.language_spec() == Language::English,
            r.table_spec(Language::English).len() == 59,
            r.table_spec(Language::Turkish).len() == 59,
            spec_lookup(r.table_spec(Language::English), "app.name"@) == Some("AlgoTrade OS"@),
            spec_lookup(r.table_spec(Language::English), "error.general"@) == Some(
                "An error occurred"@,
            ),
            spec_lookup(r.table_spec(Language::Turkish), "app.name"@) == Some("AlgoTrade OS"@),
            spec_lookup(r.table_spec(Language::Turkish), "error.general"@) == Some(
                "Bir hata oluştu"@,
            ),
    {
        let mut en: Vec<(&'static str, &'static str)> = Vec::new();
        en.push(("app.name", "AlgoTrade OS"));
        en.push(("app.demo_mode", "Demo Mode"));
        en.push(("app.live_mode", "Live Mode"));
        en.push(("error.general", "An error occurred"));
        en.push(("error.network", "Network error. Please check your connection."));
        en.push(("error.api", "API error. Please try again."));
        en.push(("error.unauthorized", "Unauthorized. Please login again."));
        en.push(("error.insufficient_balance", "Insufficient balance."));
        en.push(("error.order_failed", "Order failed. Please try again."));
        en.push(("error.connection_lost", "Connection lost. Attempting to reconnect..."));
        en.push(("error.invalid_input", "Invalid input. Please check your values."));
        en.push(("error.risk_limit_exceeded", "Risk limit exceeded. Cannot open new position."));
        en.push(("error.daily_loss_limit", "Daily loss limit reached. Trading disabled."));
        en.push(("success.order_placed", "Order placed successfully"));
        en.push(("success.order_cancelled", "Order cancelled"));
        en.push(("success.order_filled", "Order filled"));
        en.push(("success.position_opened", "Position opened"));
        en.push(("success.position_closed", "Position closed"));
        en.push(("success.settings_saved", "Settings saved"));
        en.push(("success.connection_restored", "Connection restored"));
        en.push(("success.api_connected", "API connected successfully"));
        en.push(("warning.risk_approaching", "Risk limit approaching"));
        en.push(("warning.high_leverage", "High leverage detected"));
        en.push(("warning.volatile_market", "High market volatility detected"));
        en.push(("warning.breakeven_triggered", "Breakeven triggered"));
        en.push(("warning.stop_loss_hit", "Stop loss hit"));
        en.push(("module.stop_loss.name", "Smart Stop-Loss"));
        en.push(("module.stop_loss.description", "Intelligent stop-loss management with auto-breakeven"));
        en.push(("module.batch_trading.name", "Batch Trading"));
        en.push(("module.batch_trading.description", "Bulk trading and asset group management"));
        en.push(("module.vwap_analyzer.name", "VWAP Analyzer"));
        en.push(("module.vwap_analyzer.description", "VWAP, VAL/VAH calculation and visualization"));
        en.push(("module.risk_monitor.name", "Risk Monitor"));
        en.push(("module.risk_monitor.description", "Cumulative risk tracking and daily limit control"));
        en.push(("module.sma_analyzer.name", "SMA Analyzer"));
        en.push(("module.sma_analyzer.description", "Simple Moving Averages (200D, 50W, 100W, 200W)"));
        en.push(("module.anchored_vwap.name", "Anchored VWAP"));
        en.push(("module.anchored_vwap.description", "VWAP from a specific anchor point to current time"));
        en.push(("module.strategy_builder.name", "Strategy Builder"));
        en.push(("module.strategy_builder.description", "Create custom trading signals by combining multiple indicators"));
        en.push(("trading.buy", "Buy"));
        en.push(("trading.sell", "Sell"));
        en.push(("trading.long", "Long"));
        en.push(("trading.short", "Short"));
        en.push(("trading.market", "Market"));
        en.push(("trading.limit", "Limit"));
        en.push(("trading.stop_market", "Stop Market"));
        en.push(("trading.stop_limit", "Stop Limit"));
        en.push(("order.pending", "Pending"));
        en.push(("order.filled", "Filled"));
        en.push(("order.partially_filled", "Partially Filled"));
        en.push(("order.cancelled", "Cancelled"));
        en.push(("order.rejected", "Rejected"));
        en.push(("log.module_started", "Module started"));
        en.push(("log.module_stopped", "Module stopped"));
        en.push(("log.websocket_connected", "WebSocket connected"));
        en.push(("log.websocket_disconnected", "WebSocket disconnected"));
        en.push(("log.price_updated", "Price updated"));
        en.push(("log.order_sent", "Order sent to exchange"));
        let mut tr: Vec<(&'static str, &'static str)> = Vec::new();
        tr.push(("app.name", "AlgoTrade OS"));
        tr.push(("app.demo_mode", "Demo Modu"));
        tr.push(("app.live_mode", "Canlı Mod"));
        tr.push(("error.general", "Bir hata oluştu"));
        tr.push(("error.network", "Ağ hatası. Lütfen bağlantınızı kontrol edin."));
        tr.push(("error.api", "API hatası. Lütfen tekrar deneyin."));
        tr.push(("error.unauthorized", "Yetkisiz erişim. Lütfen tekrar giriş yapın."));
        tr.push(("error.insufficient_balance", "Yetersiz bakiye."));
        tr.push(("error.order_failed", "Emir başarısız. Lütfen tekrar deneyin."));
        tr.push(("error.connection_lost", "Bağlantı kesildi. Yeniden bağlanmaya çalışılıyor..."));
        tr.push(("error.invalid_input", "Geçersiz giriş. Lütfen değerlerinizi kontrol edin."));
        tr.push(("error.risk_limit_exceeded", "Risk limiti aşıldı. Yeni pozisyon açılamaz."));
        tr.push(("error.daily_loss_limit", "Günlük kayıp limitine ulaşıldı. İşlem devre dışı."));
        tr.push(("success.order_placed", "Emir başarıyla verildi"));
        tr.push(("success.order_cancelled", "Emir iptal edildi"));
        tr.push(("success.order_filled", "Emir gerçekleşti"));
        tr.push(("success.position_opened", "Pozisyon açıldı"));
        tr.push(("success.position_closed", "Pozisyon kapatıldı"));
        tr.push(("success.settings_saved", "Ayarlar kaydedildi"));
        tr.push(("success.connection_restored", "Bağlantı yeniden kuruldu"));
        tr.push(("success.api_connected", "API başarıyla bağlandı"));
        tr.push(("warning.risk_approaching", "Risk limitine yaklaşılıyor"));
        tr.push(("warning.high_leverage", "Yüksek kaldıraç tespit edildi"));
        tr.push(("warning.volatile_market", "Yüksek piyasa oynaklığı tespit edildi"));
        tr.push(("warning.breakeven_triggered", "Breakeven tetiklendi"));
        tr.push(("warning.stop_loss_hit", "Stop loss tetiklendi"));
        tr.push(("module.stop_loss.name", "Akıllı Stop-Loss"));
        tr.push(("module.stop_loss.description", "Otomatik breakeven ile akıllı stop-loss yönetimi"));
        tr.push(("module.batch_trading.name", "Toplu İşlem"));
        tr.push(("module.batch_trading.description", "Toplu işlem ve varlık grubu yönetimi"));
        tr.push(("module.vwap_analyzer.name", "VWAP Analizi"));
        tr.push(("module.vwap_analyzer.description", "VWAP, VAL/VAH hesaplama ve görselleştirme"));
        tr.push(("module.risk_monitor.name", "Risk İzleyici"));
        tr.push(("module.risk_monitor.description", "Kümülatif risk takibi ve günlük limit kontrolü"));
        tr.push(("module.sma_analyzer.name", "SMA Analizi"));
        tr.push(("module.sma_analyzer.description", "Basit Hareketli Ortalamalar (200G, 50H, 100H, 200H)"));
        tr.push(("module.anchored_vwap.name", "Çapalı VWAP"));
        tr.push(("module.anchored_vwap.description", "Belirli bir noktadan günümüze VWAP hesaplama"));
        tr.push(("module.strategy_builder.name", "Strateji Oluşturucu"));
        tr.push(("module.strategy_builder.description", "Birden fazla göstergeyi birleştirerek özel işlem sinyalleri oluşturun"));
        tr.push(("trading.buy", "Al"));
        tr.push(("trading.sell", "Sat"));
        tr.push(("trading.long", "Long"));
        tr.push(("trading.short", "Short"));
        tr.push(("trading.market", "Piyasa"));
        tr.push(("trading.limit", "Limit"));
        tr.push(("trading.stop_market", "Stop Piyasa"));
        tr.push(("trading.stop_limit", "Stop Limit"));
        tr.push(("order.pending", "Bekliyor"));
        tr.push(("order.filled", "Gerçekleşti"));
        tr.push(("order.partially_filled", "Kısmen Gerçekleşti"));
        tr.push(("order.cancelled", "İptal Edildi"));
        tr.push(("order.rejected", "Reddedildi"));
        tr.push(("log.module_started", "Modül başlatıldı"));
        tr.push(("log.module_stopped", "Modül durduruldu"));
        tr.push(("log.websocket_connected", "WebSocket bağlandı"));
        tr.push(("log.websocket_disconnected", "WebSocket bağlantısı kesildi"));
        tr.push(("log.price_updated", "Fiyat güncellendi"));
        tr.push(("log.order_sent", "Emir borsaya gönderildi"));
        proof {
            reveal_strlit("app.name");
            reveal_strlit("app.demo_mode");
            reveal_strlit("app.live_mode");
            reveal_strlit("error.general");
            assert("app.demo_mode"@[0] != "error.general"@[0]);
            assert("app.live_mode"@[0] != "error.general"@[0]);
            assert forall|j: int| 0 <= j < 3 implies (#[trigger] en@[j].0@) != "error.general"@
                by {}
            assert forall|j: int| 0 <= j < 3 implies (#[trigger] tr@[j].0@) != "error.general"@
                by {}
            lemma_lookup_at(en@, "app.name"@, 0);
            lemma_lookup_at(en@, "error.general"@, 3);
            lemma_lookup_at(tr@, "app.name"@, 0);
            lemma_lookup_at(tr@, "error.general"@, 3);
        }
        Translations { current_language: Language::English, en, tr }
    }

    /// The first value stored under `key` in `table`, if any.
    fn lookup(table: &Vec<(&'static str, &'static str)>, key: &str) -> (r: Option<&'static str>)
        ensures
            r matches Some(v) ==> spec_lookup(table@, key@) == Some(v@),
            r is None ==> spec_lookup(table@, key@) is None,
    {
        let n = table.len();
        let mut i: usize = 0;
        proof {
            assert(table@.skip(0) =~= table@);
        }
        while i < n
            invariant
                i <= n,
                n == table@.len(),
                spec_lookup(table@.skip(i as int), key@) == spec_lookup(table@, key@),
            decreases n - i,
        {
            if str_eq(table[i].0, key) {
                proof {
                    assert(table@.skip(i as int)[0] == table@[i as int]);
                }
                return Some(table[i].1);
            }
            proof {
                assert(table@.skip(i as int)[0] == table@[i as int]);
                assert(table@.skip(i as int).skip(1) =~= table@.skip(i as int + 1));
            }
            i = i + 1;
        }
        proof {
            assert(table@.skip(n as int) =~= Seq::<(&'static str, &'static str)>::empty());
        }
        None
    }

    /// Switches the language used by `get`.
    pub fn set_language(&mut self, language: Language)
        ensures
            final(self).language_spec() == language,
            final(self).table_spec(Language::English) == old(self).table_spec(Language::English),
            final(self).table_spec(Language::Turkish) == old(self).table_spec(Language::Turkish),
    {
        self.current_language = language;
    }

    /// The language currently used by `get`.
    pub fn current_language(&self) -> (r: Language)
        ensures
            r == self.language_spec(),
    {
        self.current_language
    }

    /// The text stored under `key` in the chosen language, falling back
    /// to English and then to the key itself.
    pub fn get<'a>(&'a self, key: &'a str) -> (r: &'a str)
        ensures
            r@ == self.spec_get(key@),
    {
        let table = match self.current_language {
            Language::English => &self.en,
            Language::Turkish => &self.tr,
        };
        match Self::lookup(table, key) {
            Some(v) => v,
            None => match Self::lookup(&self.en, key) {
                Some(v) => v,
                None => key,
            },
        }
    }

    /// The translated text with each `{name}` placeholder replaced by
    /// its parameter's value, in parameter order.
    pub fn get_with_params(&self, key: &str, params: &Vec<(&str, &str)>) -> (r: String)
        ensures
            r@ == spec_apply_params(self.spec_get(key@), params@),
    {
        let mut cur: String = self.get(key).to_owned();
        let n = params.len();
        let mut j: usize = 0;
        proof {
            assert(params@.skip(0) =~= params@);
        }
        while j < n
            invariant
                j <= n,
                n == params@.len(),
                spec_apply_params(cur@, params@.skip(j as int)) == spec_apply_params(
                    self.spec_get(key@),
                    params@,
                ),
            decreases n - j,
        {
            let mut pattern = String::new();
            push_char(&mut pattern, '{');
            pattern.append(params[j].0);
            push_char(&mut pattern, '}');
            proof {
                assert(pattern@ =~= brace_key(params@[j as int].0@));
                assert(params@.skip(j as int)[0] == params@[j as int]);
                assert(params@.skip(j as int).skip(1) =~= params@.skip(j as int + 1));
            }
            cur = str_replace(cur.as_str(), pattern.as_str(), params[j].1);
            j = j + 1;
        }
        proof {
            assert(params@.skip(n as int) =~= Seq::<(&str, &str)>::empty());
        }
        cur
    }
}

impl Default for Translations {
    fn default() -> (r: Self)
        ensures
            r.language_spec() == Language::English,
    {
        Translations::new()
    }
}

} // verus!
