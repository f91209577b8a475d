//! The reference table of supported currencies and what the ISO 4217 data of
//! `rusty_money` says of each: its symbol, its code and its locale's separators.

use vstd::prelude::*;

verus! {

/// A locale whose number formatting conventions `rusty_money` knows.
#[derive(Clone, Copy, Debug, PartialEq, Eq, Structural)]
pub enum CurrencyLocale {
    EnUs,
    EnIn,
    EnEu,
    EnBy,
}

/// One supported currency: its ISO alpha code, its display symbol and its locale.
pub struct CurrencyDefinition {
    pub iso_code: String,
    pub symbol: String,
    pub locale: CurrencyLocale,
}

pub struct CurrencyView {
    pub iso_code: Seq<char>,
    pub symbol: Seq<char>,
    pub locale: CurrencyLocale,
}

impl View for CurrencyDefinition {
    type V = CurrencyView;

    open spec fn view(&self) -> CurrencyView {
        CurrencyView { iso_code: self.iso_code@, symbol: self.symbol@, locale: self.locale }
    }
}

pub open spec fn opt_view(d: Option<CurrencyDefinition>) -> Option<CurrencyView> {
    match d {
        Some(d) => Some(d@),
        None => None,
    }
}

/// The currency that the ISO 4217 data of `rusty_money` lists under an alpha code.
pub uninterp spec fn iso_currency(code: Seq<char>) -> Option<CurrencyView>;

/// The digit-group separator and the exponent separator of a locale.
pub open spec fn separators_of(l: CurrencyLocale) -> (char, char) {
    match l {
        CurrencyLocale::EnUs => (',', '.'),
        CurrencyLocale::EnIn => (',', '.'),
        CurrencyLocale::EnEu => ('.', ','),
        CurrencyLocale::EnBy => (' ', ','),
    }
}

/// Relies on `rusty_money::iso::find`: the currency whose alpha code is `code`, if any.
#[verifier::external_body]
pub(crate) fn find_currency(code: &str) -> (r: Option<CurrencyDefinition>)
    ensures
        opt_view(r) == iso_currency(code@),
        r matches Some(d) ==> d.iso_code@ == code@,
{
    rusty_money::iso::find(code).map(|c| CurrencyDefinition {
        iso_code: c.iso_alpha_code.to_string(),
        symbol: c.symbol.to_string(),
        locale: match c.locale {
            rusty_money::Locale::EnUs => CurrencyLocale::EnUs,
            rusty_money::Locale::EnIn => CurrencyLocale::EnIn,
            rusty_money::Locale::EnEu => CurrencyLocale::EnEu,
            rusty_money::Locale::EnBy => CurrencyLocale::EnBy,
        },
    })
}

/// Relies on `rusty_money::LocalFormat::from_locale`: the locale's digit-group
/// separator and exponent separator.
#[verifier::external_body]
pub(crate) fn locale_separators(l: CurrencyLocale) -> (r: (char, char))
    ensures
        r == separators_of(l),
{
    let f = rusty_money::LocalFormat::from_locale(match l {
        CurrencyLocale::EnUs => rusty_money::Locale::EnUs,
        CurrencyLocale::EnIn => rusty_money::Locale::EnIn,
        CurrencyLocale::EnEu => rusty_money::Locale::EnEu,
        CurrencyLocale::EnBy => rusty_money::Locale::EnBy,
    });
    (f.digit_separator, f.exponent_separator)
}

/// The alpha codes of the supported currencies.
pub open spec fn supported_codes() -> Seq<&'static str> {
    seq![
        "AED", "AFN", "ALL", "AMD", "ANG", "AOA", "ARS", "AUD", "AWG", "AZN", "BAM", "BBD",
        "BDT", "BGN", "BHD", "BIF", "BMD", "BND", "BOB", "BRL", "BSD", "BTN", "BWP", "BYN",
        "BYR", "BZD", "CAD", "CDF", "CHF", "CLF", "CLP", "CNY", "COP", "CRC", "CUC", "CUP",
        "CVE", "CZK", "DJF", "DKK", "DOP", "DZD", "EGP", "ERN", "ETB", "EUR", "FJD", "FKP",
        "GBP", "GEL", "GHS", "GIP", "GMD", "GNF", "GTQ", "GYD", "HKD", "HNL", "HRK", "HTG",
        "HUF", "IDR", "ILS", "INR", "IQD", "IRR", "ISK", "JMD", "JOD", "JPY", "KES", "KGS",
        "KHR", "KMF", "KPW", "KRW", "KWD", "KYD", "KZT", "LAK", "LBP", "LKR", "LRD", "LSL",
        "LYD", "MAD", "MDL", "MGA", "MKD", "MMK", "MNT", "MOP", "MRU", "MUR", "MVR", "MWK",
        "MXN", "MYR", "MZN", "NAD", "NGN", "NIO", "NOK", "NPR", "NZD", "OMR", "PAB", "PEN",
        "PGK", "PHP", "PKR", "PLN", "PYG", "QAR", "RON", "RSD", "RUB", "RWF", "SAR", "SBD",
        "SCR", "SDG", "SEK", "SGD", "SHP", "SKK", "SLL", "SOS", "SRD", "SSP", "STD", "STN",
        "SVC", "SYP", "SZL", "THB", "TJS", "TMT", "TND", "TOP", "TRY", "TTD", "TWD", "TZS",
        "UAH", "UGX", "USD", "UYU", "UYW", "UZS", "VES", "VND", "VUV", "WST", "XAF", "XAG",
        "XAU", "XBA", "XBB", "XBC", "XBD", "XCD", "XDR", "XOF", "XPD", "XPF", "XPT", "XTS",
        "YER", "ZAR", "ZMK", "ZMW", "ZWL",
    ]
}

/// The alpha codes of the supported currencies, in table order.
pub fn currency_codes() -> (r: Vec<&'static str>)
    ensures
        r@ == supported_codes(),
{
    vec![
        "AED", "AFN", "ALL", "AMD", "ANG", "AOA", "ARS", "AUD", "AWG", "AZN", "BAM", "BBD",
        "BDT", "BGN", "BHD", "BIF", "BMD", "BND", "BOB", "BRL", "BSD", "BTN", "BWP", "BYN",
        "BYR", "BZD", "CAD", "CDF", "CHF", "CLF", "CLP", "CNY", "COP", "CRC", "CUC", "CUP",
        "CVE", "CZK", "DJF", "DKK", "DOP", "DZD", "EGP", "ERN", "ETB", "EUR", "FJD", "FKP",
        "GBP", "GEL", "GHS", "GIP", "GMD", "GNF", "GTQ", "GYD", "HKD", "HNL", "HRK", "HTG",
        "HUF", "IDR", "ILS", "INR", "IQD", "IRR", "ISK", "JMD", "JOD", "JPY", "KES", "KGS",
        "KHR", "KMF", "KPW", "KRW", "KWD", "KYD", "KZT", "LAK", "LBP", "LKR", "LRD", "LSL",
        "LYD", "MAD", "MDL", "MGA", "MKD", "MMK", "MNT", "MOP", "MRU", "MUR", "MVR", "MWK",
        "MXN", "MYR", "MZN", "NAD", "NGN", "NIO", "NOK", "NPR", "NZD", "OMR", "PAB", "PEN",
        "PGK", "PHP", "PKR", "PLN", "PYG", "QAR", "RON", "RSD", "RUB", "RWF", "SAR", "SBD",
        "SCR", "SDG", "SEK", "SGD", "SHP", "SKK", "SLL", "SOS", "SRD", "SSP", "STD", "STN",
        "SVC", "SYP", "SZL", "THB", "TJS", "TMT", "TND", "TOP", "TRY", "TTD", "TWD", "TZS",
        "UAH", "UGX", "USD", "UYU", "UYW", "UZS", "VES", "VND", "VUV", "WST", "XAF", "XAG",
        "XAU", "XBA", "XBB", "XBC", "XBD", "XCD", "XDR", "XOF", "XPD", "XPF", "XPT", "XTS",
        "YER", "ZAR", "ZMK", "ZMW", "ZWL",
    ]
}

} // verus!
