//! The symbols offered for copying, by group.
use vstd::prelude::*;

use crate::text::{chars_of, contains_chars, contains_seq, occurs_at, lowercase, to_lowercase, trim, trim_chars, string_from};

verus! {

/// A named group of symbols.
pub struct SymbolGroup {
    pub name: &'static str,
    pub symbols: &'static [&'static str],
}

/// `groups` is the symbol catalog: its group names and their symbols, in
/// order.
pub open spec fn is_symbol_catalog(groups: Seq<SymbolGroup>) -> bool {
    &&& groups.len() == 11
    &&& groups[0].name@ == "Matemática"@
    &&& groups[0].symbols@ == seq![
        "±", "×", "÷", "≈", "≠", "≤", "≥", "∞", "√", "∑", "∏", "∫", "π", "°"
    ]
    &&& groups[1].name@ == "Setas"@
    &&& groups[1].symbols@ == seq!["→", "←", "↑", "↓", "↔", "⇒", "⇐", "⇔"]
    &&& groups[2].name@ == "Ícones gerais"@
    &&& groups[2].symbols@ == seq!["★", "☆", "✓", "✗", "©", "®", "™", "•", "…", "§"]
    &&& groups[3].name@ == "Números Especiais"@
    &&& groups[3].symbols@ == seq![
        "¼", "½", "¾", "⅓", "⅔", "⅕", "⅖", "⅗", "⅘", "⅙", "⅚", "⅛", "⅜", "⅝", "⅞", "Ⅰ", "Ⅱ",
        "Ⅲ", "Ⅳ", "Ⅴ", "Ⅵ", "Ⅶ", "Ⅷ", "Ⅸ", "Ⅹ", "Ⅺ", "Ⅻ", "Ⅼ", "Ⅽ", "Ⅾ", "Ⅿ", "ⅰ", "ⅱ", "ⅲ",
        "ⅳ", "ⅴ", "ⅵ", "ⅶ", "ⅷ", "ⅸ", "ⅹ", "ⅺ", "ⅻ", "ⅼ", "ⅽ", "ⅾ", "ⅿ", "⓪", "①", "②", "③",
        "④", "⑤", "⑥", "⑦", "⑧", "⑨", "⑩", "⑪", "⑫", "⑬", "⑭", "⑮", "⑯", "⑰", "⑱", "⑲", "⑳",
        "❶", "❷", "❸", "❹", "❺", "❻", "❼", "❽", "❾", "❿", "⁰", "¹", "²", "³", "⁴", "⁵", "⁶",
        "⁷", "⁸", "⁹", "⁺", "⁻", "⁼", "⁽", "⁾", "ⁿ", "₀", "₁", "₂", "₃", "₄", "₅", "₆", "₇",
        "₈", "₉", "₊", "₋", "₌", "₍", "₎"
    ]
    &&& groups[4].name@ == "Pontuação e Tipografia"@
    &&& groups[4].symbols@ == seq![
        "\u{201C}", "\u{201D}", "\u{2018}", "\u{2019}", "«", "»", "‹", "›", "„", "‚", "–", "—",
        "―", "…", "‰", "‱", "¡", "¿", "‽", "⁂", "•", "‣", "◦", "▪", "▫", "¶", "§", "※", "№",
        "℗", "′", "″", "‾"
    ]
    &&& groups[5].name@ == "Moeda"@
    &&& groups[5].symbols@ == seq![
        "$", "€", "£", "¥", "¢", "₹", "₩", "₽", "₺", "₴", "₦", "₫", "₪", "₡", "₱", "₲", "₵",
        "₸", "₮", "฿", "৳", "₭", "¤"
    ]
    &&& groups[6].name@ == "Letras Gregas"@
    &&& groups[6].symbols@ == seq![
        "α", "β", "γ", "δ", "ε", "ζ", "η", "θ", "ι", "κ", "λ", "μ", "ν", "ξ", "ο", "π", "ρ",
        "σ", "ς", "τ", "υ", "φ", "χ", "ψ", "ω", "Α", "Β", "Γ", "Δ", "Ε", "Ζ", "Η", "Θ", "Ι",
        "Κ", "Λ", "Μ", "Ν", "Ξ", "Ο", "Π", "Ρ", "Σ", "Τ", "Υ", "Φ", "Χ", "Ψ", "Ω"
    ]
    &&& groups[7].name@ == "Técnicos e Legais"@
    &&& groups[7].symbols@ == seq![
        "©", "®", "™", "℠", "†", "‡", "⌘", "⌥", "⌦", "⌫", "⏎", "⎋", "✓", "✔", "✗", "✘", "☑",
        "☐", "☒", "⚠"
    ]
    &&& groups[8].name@ == "Jogos"@
    &&& groups[8].symbols@ == seq![
        "♠", "♣", "♥", "♦", "♤", "♧", "♡", "♢", "♔", "♕", "♖", "♗", "♘", "♙", "♚", "♛", "♜",
        "♝", "♞", "♟", "⚀", "⚁", "⚂", "⚃", "⚄", "⚅"
    ]
    &&& groups[9].name@ == "Clima e Natureza"@
    &&& groups[9].symbols@ == seq![
        "☀", "☁", "☂", "☃", "☄", "☽", "☾", "⛅", "⛈", "⛄", "❄", "❅", "❆", "☔", "☘", "❀", "✿"
    ]
    &&& groups[10].name@ == "Música"@
    &&& groups[10].symbols@ == seq!["♩", "♪", "♫", "♬", "♭", "♮", "♯", "𝄞"]
    &&& forall|i: int| 0 <= i < groups.len() ==> #[trigger] groups[i].name@.len() > 0
}

/// The symbols offered in the symbols tab.
pub fn catalog() -> (r: Vec<SymbolGroup>)
    ensures
        is_symbol_catalog(r@),
{
    proof {
        reveal_strlit("Matemática");
        reveal_strlit("Setas");
        reveal_strlit("Ícones gerais");
        reveal_strlit("Números Especiais");
        reveal_strlit("Pontuação e Tipografia");
        reveal_strlit("Moeda");
        reveal_strlit("Letras Gregas");
        reveal_strlit("Técnicos e Legais");
        reveal_strlit("Jogos");
        reveal_strlit("Clima e Natureza");
        reveal_strlit("Música");
    }
    vec![
        SymbolGroup {
            name: "Matemática",
            symbols: &[
                "±", "×", "÷", "≈", "≠", "≤", "≥", "∞", "√", "∑", "∏", "∫", "π", "°",
            ],
        },
        SymbolGroup {
            name: "Setas",
            symbols: &[
                "→", "←", "↑", "↓", "↔", "⇒", "⇐", "⇔",
            ],
        },
        SymbolGroup {
            name: "Ícones gerais",
            symbols: &[
                "★", "☆", "✓", "✗", "©", "®", "™", "•", "…", "§",
            ],
        },
        SymbolGroup {
            name: "Números Especiais",
            symbols: &[
                "¼", "½", "¾", "⅓", "⅔", "⅕", "⅖", "⅗", "⅘", "⅙", "⅚", "⅛", "⅜", "⅝", "⅞", "Ⅰ", "Ⅱ",
                "Ⅲ", "Ⅳ", "Ⅴ", "Ⅵ", "Ⅶ", "Ⅷ", "Ⅸ", "Ⅹ", "Ⅺ", "Ⅻ", "Ⅼ", "Ⅽ", "Ⅾ", "Ⅿ", "ⅰ", "ⅱ", "ⅲ",
                "ⅳ", "ⅴ", "ⅵ", "ⅶ", "ⅷ", "ⅸ", "ⅹ", "ⅺ", "ⅻ", "ⅼ", "ⅽ", "ⅾ", "ⅿ", "⓪", "①", "②", "③",
                "④", "⑤", "⑥", "⑦", "⑧", "⑨", "⑩", "⑪", "⑫", "⑬", "⑭", "⑮", "⑯", "⑰", "⑱", "⑲", "⑳",
                "❶", "❷", "❸", "❹", "❺", "❻", "❼", "❽", "❾", "❿", "⁰", "¹", "²", "³", "⁴", "⁵", "⁶",
                "⁷", "⁸", "⁹", "⁺", "⁻", "⁼", "⁽", "⁾", "ⁿ", "₀", "₁", "₂", "₃", "₄", "₅", "₆", "₇",
                "₈", "₉", "₊", "₋", "₌", "₍", "₎",
            ],
        },
        SymbolGroup {
            name: "Pontuação e Tipografia",
            symbols: &[
                "\u{201C}", "\u{201D}", "\u{2018}", "\u{2019}", "«", "»", "‹", "›", "„", "‚", "–",
                "—", "―", "…", "‰", "‱", "¡", "¿", "‽", "⁂", "•", "‣", "◦", "▪", "▫", "¶", "§", "※",
                "№", "℗", "′", "″", "‾",
            ],
        },
        SymbolGroup {
            name: "Moeda",
            symbols: &[
                "$", "€", "£", "¥", "¢", "₹", "₩", "₽", "₺", "₴", "₦", "₫", "₪", "₡", "₱", "₲", "₵",
                "₸", "₮", "฿", "৳", "₭", "¤",
            ],
        },
        SymbolGroup {
            name: "Letras Gregas",
            symbols: &[
                "α", "β", "γ", "δ", "ε", "ζ", "η", "θ", "ι", "κ", "λ", "μ", "ν", "ξ", "ο", "π", "ρ",
                "σ", "ς", "τ", "υ", "φ", "χ", "ψ", "ω", "Α", "Β", "Γ", "Δ", "Ε", "Ζ", "Η", "Θ", "Ι",
                "Κ", "Λ", "Μ", "Ν", "Ξ", "Ο", "Π", "Ρ", "Σ", "Τ", "Υ", "Φ", "Χ", "Ψ", "Ω",
            ],
        },
        SymbolGroup {
            name: "Técnicos e Legais",
            symbols: &[
                "©", "®", "™", "℠", "†", "‡", "⌘", "⌥", "⌦", "⌫", "⏎", "⎋", "✓", "✔", "✗", "✘", "☑",
                "☐", "☒", "⚠",
            ],
        },
        SymbolGroup {
            name: "Jogos",
            symbols: &[
                "♠", "♣", "♥", "♦", "♤", "♧", "♡", "♢", "♔", "♕", "♖", "♗", "♘", "♙", "♚", "♛", "♜",
                "♝", "♞", "♟", "⚀", "⚁", "⚂", "⚃", "⚄", "⚅",
            ],
        },
        SymbolGroup {
            name: "Clima e Natureza",
            symbols: &[
                "☀", "☁", "☂", "☃", "☄", "☽", "☾", "⛅", "⛈", "⛄", "❄", "❅", "❆", "☔", "☘", "❀", "✿",
            ],
        },
        SymbolGroup {
            name: "Música",
            symbols: &[
                "♩", "♪", "♫", "♬", "♭", "♮", "♯", "𝄞",
            ],
        },
    ]
}

/// `groups` is the emoji catalog: its group names and their emojis, in
/// order.
pub open spec fn is_emoji_catalog(groups: Seq<SymbolGroup>) -> bool {
    &&& groups.len() == 9
    &&& groups[0].name@ == "Emojis - Smileys e Emoções"@
    &&& groups[0].symbols@ == seq![
        "😀", "😃", "😄", "😁", "😆", "😅", "🤣", "😂", "🙂", "😉", "😊", "😇", "🥰", "😍", "😘", "😋", "😛",
        "🤪", "🤑", "🤗", "🤔", "😐", "😴", "😷", "🤒", "🥵", "🥶", "🤯", "🥳", "😎", "🤓", "😢", "😭", "😡",
        "🤬", "😱", "🥺", "😬", "🙄", "😏"
    ]
    &&& groups[1].name@ == "Emojis - Pessoas e Gestos"@
    &&& groups[1].symbols@ == seq![
        "👋", "🤚", "✋", "🖖", "👌", "✌", "🤞", "🤟", "🤘", "🤙", "👈", "👉", "👆", "👇", "👍", "👎", "✊",
        "👊", "👏", "🙌", "🙏", "💪", "👀", "👶", "🧑", "👨", "👩", "👴", "👵", "🙋", "🙅", "🙆", "💁", "🤷",
        "🤦", "👮", "🕵", "👷", "🤴", "👸", "🎅"
    ]
    &&& groups[2].name@ == "Emojis - Animais e Natureza"@
    &&& groups[2].symbols@ == seq![
        "🐶", "🐱", "🐭", "🐹", "🐰", "🦊", "🐻", "🐼", "🐨", "🐯", "🦁", "🐮", "🐷", "🐸", "🐵", "🐔", "🐧",
        "🐦", "🦆", "🦉", "🐺", "🐴", "🦄", "🐝", "🦋", "🐢", "🐍", "🐙", "🐬", "🐳", "🌵", "🌲", "🌳", "🌴",
        "🌸", "🌻", "🌹", "🍀", "🍁", "🌙", "⭐", "⚡", "🔥", "🌈"
    ]
    &&& groups[3].name@ == "Emojis - Comida e Bebida"@
    &&& groups[3].symbols@ == seq![
        "🍎", "🍌", "🍇", "🍓", "🍉", "🍒", "🍑", "🥑", "🍅", "🥕", "🌽", "🍞", "🧀", "🥚", "🍳", "🥓", "🍔",
        "🍟", "🍕", "🌭", "🌮", "🍣", "🍜", "🍦", "🍩", "🎂", "🍰", "🍫", "🍭", "🍿", "☕", "🍵", "🥤", "🍺",
        "🍷", "🍾"
    ]
    &&& groups[4].name@ == "Emojis - Viagem e Lugares"@
    &&& groups[4].symbols@ == seq![
        "🚗", "🚕", "🚌", "🚑", "🚒", "🚲", "🚀", "✈", "🚁", "⛵", "🚢", "🚦", "🗺", "🗽", "🏰", "🎡", "🏖",
        "🏔", "⛺", "🏠", "🏢", "🏥", "🏦", "🏫", "⛪"
    ]
    &&& groups[5].name@ == "Emojis - Atividades"@
    &&& groups[5].symbols@ == seq![
        "⚽", "🏀", "🏈", "⚾", "🎾", "🏐", "🎱", "🏓", "🏸", "🎣", "🎿", "🏋", "🏊", "🚴", "🏆", "🥇", "🎮",
        "🎲", "🎯", "🎨", "🎬", "🎤", "🎧", "🎸", "🎉"
    ]
    &&& groups[6].name@ == "Emojis - Objetos"@
    &&& groups[6].symbols@ == seq![
        "⌚", "📱", "💻", "⌨", "🖥", "📷", "🎥", "📺", "🔋", "💡", "🔦", "📡", "💰", "💳", "💎", "🔧", "🔨",
        "⚙", "🔑", "🚪", "🛏", "🎁", "🎈", "✉", "📦", "📅", "📚", "📖", "🔗", "📌", "✂", "✏", "🔍", "🔒",
        "🔓"
    ]
    &&& groups[7].name@ == "Emojis - Símbolos"@
    &&& groups[7].symbols@ == seq![
        "❤", "🧡", "💛", "💚", "💙", "💜", "🖤", "🤍", "🤎", "💔", "❣", "💕", "💞", "💓", "💗", "💖", "💘",
        "💝", "✅", "❌", "❗", "❓", "‼", "⁉", "💯", "🔴", "🟠", "🟡", "🟢", "🔵", "🟣", "⚪", "⚫", "🔶",
        "🔷", "🔺", "🔻"
    ]
    &&& groups[8].name@ == "Emojis - Bandeiras"@
    &&& groups[8].symbols@ == seq![
        "🏳", "🏴", "🏁", "🚩", "🏳\u{200D}🌈", "🇧🇷", "🇺🇸", "🇵🇹", "🇪🇸", "🇫🇷", "🇩🇪", "🇮🇹", "🇬🇧", "🇯🇵",
        "🇨🇳", "🇦🇷", "🇨🇦", "🇦🇺", "🇲🇽", "🇮🇳"
    ]
    &&& forall|i: int| 0 <= i < groups.len() ==> #[trigger] groups[i].name@.len() > 0
}

/// The emoji groups.
pub fn emoji_catalog() -> (r: Vec<SymbolGroup>)
    ensures
        is_emoji_catalog(r@),
{
    proof {
        reveal_strlit("Emojis - Smileys e Emoções");
        reveal_strlit("Emojis - Pessoas e Gestos");
        reveal_strlit("Emojis - Animais e Natureza");
        reveal_strlit("Emojis - Comida e Bebida");
        reveal_strlit("Emojis - Viagem e Lugares");
        reveal_strlit("Emojis - Atividades");
        reveal_strlit("Emojis - Objetos");
        reveal_strlit("Emojis - Símbolos");
        reveal_strlit("Emojis - Bandeiras");
    }
    vec![
        SymbolGroup {
            name: "Emojis - Smileys e Emoções",
            symbols: &[
                "😀", "😃", "😄", "😁", "😆", "😅", "🤣", "😂", "🙂", "😉", "😊", "😇", "🥰", "😍", "😘", "😋", "😛",
                "🤪", "🤑", "🤗", "🤔", "😐", "😴", "😷", "🤒", "🥵", "🥶", "🤯", "🥳", "😎", "🤓", "😢", "😭", "😡",
                "🤬", "😱", "🥺", "😬", "🙄", "😏",
            ],
        },
        SymbolGroup {
            name: "Emojis - Pessoas e Gestos",
            symbols: &[
                "👋", "🤚", "✋", "🖖", "👌", "✌", "🤞", "🤟", "🤘", "🤙", "👈", "👉", "👆", "👇", "👍", "👎", "✊",
                "👊", "👏", "🙌", "🙏", "💪", "👀", "👶", "🧑", "👨", "👩", "👴", "👵", "🙋", "🙅", "🙆", "💁", "🤷",
                "🤦", "👮", "🕵", "👷", "🤴", "👸", "🎅",
            ],
        },
        SymbolGroup {
            name: "Emojis - Animais e Natureza",
            symbols: &[
                "🐶", "🐱", "🐭", "🐹", "🐰", "🦊", "🐻", "🐼", "🐨", "🐯", "🦁", "🐮", "🐷", "🐸", "🐵", "🐔", "🐧",
                "🐦", "🦆", "🦉", "🐺", "🐴", "🦄", "🐝", "🦋", "🐢", "🐍", "🐙", "🐬", "🐳", "🌵", "🌲", "🌳", "🌴",
                "🌸", "🌻", "🌹", "🍀", "🍁", "🌙", "⭐", "⚡", "🔥", "🌈",
            ],
        },
        SymbolGroup {
            name: "Emojis - Comida e Bebida",
            symbols: &[
                "🍎", "🍌", "🍇", "🍓", "🍉", "🍒", "🍑", "🥑", "🍅", "🥕", "🌽", "🍞", "🧀", "🥚", "🍳", "🥓", "🍔",
                "🍟", "🍕", "🌭", "🌮", "🍣", "🍜", "🍦", "🍩", "🎂", "🍰", "🍫", "🍭", "🍿", "☕", "🍵", "🥤", "🍺",
                "🍷", "🍾",
            ],
        },
        SymbolGroup {
            name: "Emojis - Viagem e Lugares",
            symbols: &[
                "🚗", "🚕", "🚌", "🚑", "🚒", "🚲", "🚀", "✈", "🚁", "⛵", "🚢", "🚦", "🗺", "🗽", "🏰", "🎡", "🏖",
                "🏔", "⛺", "🏠", "🏢", "🏥", "🏦", "🏫", "⛪",
            ],
        },
        SymbolGroup {
            name: "Emojis - Atividades",
            symbols: &[
                "⚽", "🏀", "🏈", "⚾", "🎾", "🏐", "🎱", "🏓", "🏸", "🎣", "🎿", "🏋", "🏊", "🚴", "🏆", "🥇", "🎮",
                "🎲", "🎯", "🎨", "🎬", "🎤", "🎧", "🎸", "🎉",
            ],
        },
        SymbolGroup {
            name: "Emojis - Objetos",
            symbols: &[
                "⌚", "📱", "💻", "⌨", "🖥", "📷", "🎥", "📺", "🔋", "💡", "🔦", "📡", "💰", "💳", "💎", "🔧", "🔨",
                "⚙", "🔑", "🚪", "🛏", "🎁", "🎈", "✉", "📦", "📅", "📚", "📖", "🔗", "📌", "✂", "✏", "🔍", "🔒",
                "🔓",
            ],
        },
        SymbolGroup {
            name: "Emojis - Símbolos",
            symbols: &[
                "❤", "🧡", "💛", "💚", "💙", "💜", "🖤", "🤍", "🤎", "💔", "❣", "💕", "💞", "💓", "💗", "💖", "💘",
                "💝", "✅", "❌", "❗", "❓", "‼", "⁉", "💯", "🔴", "🟠", "🟡", "🟢", "🔵", "🟣", "⚪", "⚫", "🔶",
                "🔷", "🔺", "🔻",
            ],
        },
        SymbolGroup {
            name: "Emojis - Bandeiras",
            symbols: &[
                "🏳", "🏴", "🏁", "🚩", "🏳\u{200D}🌈", "🇧🇷", "🇺🇸", "🇵🇹", "🇪🇸", "🇫🇷", "🇩🇪", "🇮🇹", "🇬🇧",
                "🇯🇵", "🇨🇳", "🇦🇷", "🇨🇦", "🇦🇺", "🇲🇽", "🇮🇳",
            ],
        },
    ]
}

/// A group as the symbols tab shows it: its name and the symbols that pass
/// the search.
pub struct VisibleGroup {
    pub name: &'static str,
    pub symbols: Vec<&'static str>,
}

/// What the search looks for: the trimmed search in lower case.
pub open spec fn needle_spec(search: Seq<char>) -> Seq<char> {
    lowercase(trim(search))
}

/// A symbol passes when its lower-case form contains the needle.
pub open spec fn symbol_passes(needle: Seq<char>) -> spec_fn(&'static str) -> bool {
    |sym: &'static str| contains_seq(lowercase(sym@), needle)
}

/// The symbols of a group that show: all of them when the needle is empty or
/// the group's name (in lower case) contains it, else those that pass.
pub open spec fn group_shows(g: SymbolGroup, needle: Seq<char>) -> Seq<&'static str> {
    if needle.len() == 0 || contains_seq(lowercase(g.name@), needle) {
        g.symbols@
    } else {
        g.symbols@.filter(symbol_passes(needle))
    }
}

/// The groups that show under the needle, among the first `n`, with the
/// symbols that show; groups with none are left out.
pub open spec fn groups_shown(groups: Seq<SymbolGroup>, needle: Seq<char>, n: int) -> Seq<(&'static str, Seq<&'static str>)>
    decreases n,
{
    if n <= 0 {
        Seq::empty()
    } else {
        let before = groups_shown(groups, needle, n - 1);
        let shown = group_shows(groups[n - 1], needle);
        if shown.len() == 0 {
            before
        } else {
            before.push((groups[n - 1].name, shown))
        }
    }
}

/// The view of a shown group.
pub open spec fn group_view(g: VisibleGroup) -> (&'static str, Seq<&'static str>) {
    (g.name, g.symbols@)
}

fn shown_symbols(g: &SymbolGroup, needle: &Vec<char>) -> (r: Vec<&'static str>)
    ensures
        r@ == group_shows(*g, needle@),
{
    let name_lower = to_lowercase(g.name);
    let all = needle.len() == 0 || contains_chars(&chars_of(name_lower.as_str()), needle);
    let mut r: Vec<&'static str> = Vec::new();
    let mut i: usize = 0;
    while i < g.symbols.len()
        invariant
            i <= g.symbols@.len(),
            all == (needle@.len() == 0 || contains_seq(lowercase(g.name@), needle@)),
            all ==> r@ == g.symbols@.take(i as int),
            !all ==> r@ == g.symbols@.take(i as int).filter(symbol_passes(needle@)),
        decreases g.symbols@.len() - i,
    {
        let sym = g.symbols[i];
        proof {
            let t = g.symbols@.take(i + 1);
            assert(t.drop_last() == g.symbols@.take(i as int));
            assert(t.last() == sym);
            reveal_with_fuel(Seq::<_>::filter, 1);
        }
        let keep = all || contains_chars(&chars_of(to_lowercase(sym).as_str()), needle);
        if keep {
            r.push(sym);
        }
        i = i + 1;
    }
    assert(g.symbols@.take(g.symbols@.len() as int) == g.symbols@);
    r
}

/// The groups that the symbols tab shows under the search.
pub fn visible_groups(groups: &Vec<SymbolGroup>, search: &str) -> (r: Vec<VisibleGroup>)
    ensures
        r@.map_values(|g: VisibleGroup| group_view(g)) == groups_shown(
            groups@,
            needle_spec(search@),
            groups@.len() as int,
        ),
{
    let trimmed = trim_chars(&chars_of(search));
    let lower = to_lowercase(string_from(&trimmed).as_str());
    let needle = chars_of(lower.as_str());
    let mut r: Vec<VisibleGroup> = Vec::new();
    let mut i: usize = 0;
    while i < groups.len()
        invariant
            i <= groups@.len(),
            needle@ == needle_spec(search@),
            r@.map_values(|g: VisibleGroup| group_view(g)) == groups_shown(groups@, needle@, i as int),
        decreases groups@.len() - i,
    {
        let shown = shown_symbols(&groups[i], &needle);
        if shown.len() > 0 {
            let ghost before = r@;
            r.push(VisibleGroup { name: groups[i].name, symbols: shown });
            assert(r@.map_values(|g: VisibleGroup| group_view(g)) == before.map_values(
                |g: VisibleGroup| group_view(g),
            ).push(group_view(r@.last())));
        }
        i = i + 1;
    }
    r
}

/// The symbols of the shown groups, one after the other.
pub open spec fn flatten_shown(shown: Seq<(&'static str, Seq<&'static str>)>) -> Seq<&'static str>
    decreases shown.len(),
{
    if shown.len() == 0 {
        Seq::empty()
    } else {
        flatten_shown(shown.drop_last()) + shown.last().1
    }
}

/// The symbols that the symbols tab shows under the search, in the order
/// they are drawn.
pub open spec fn visible_symbols_spec(groups: Seq<SymbolGroup>, search: Seq<char>) -> Seq<&'static str> {
    flatten_shown(groups_shown(groups, needle_spec(search), groups.len() as int))
}

/// The symbols that the symbols tab shows under the search, in the order
/// they are drawn.
pub fn visible_symbols(groups: &Vec<SymbolGroup>, search: &str) -> (r: Vec<&'static str>)
    ensures
        r@ == visible_symbols_spec(groups@, search@),
{
    let shown = visible_groups(groups, search);
    let ghost views = shown@.map_values(|g: VisibleGroup| group_view(g));
    let mut r: Vec<&'static str> = Vec::new();
    let mut i: usize = 0;
    while i < shown.len()
        invariant
            i <= shown@.len(),
            views == shown@.map_values(|g: VisibleGroup| group_view(g)),
            r@ == flatten_shown(views.take(i as int)),
        decreases shown@.len() - i,
    {
        let ghost before = r@;
        let mut k: usize = 0;
        while k < shown[i].symbols.len()
            invariant
                i < shown@.len(),
                k <= shown@[i as int].symbols@.len(),
                r@ == before + shown@[i as int].symbols@.take(k as int),
            decreases shown@[i as int].symbols@.len() - k,
        {
            r.push(shown[i].symbols[k]);
            assert(shown@[i as int].symbols@.take(k + 1) == shown@[i as int].symbols@.take(k as int).push(
                shown@[i as int].symbols@[k as int],
            ));
            k = k + 1;
        }
        proof {
            assert(shown@[i as int].symbols@.take(k as int) == shown@[i as int].symbols@);
            assert(views.take(i + 1).drop_last() == views.take(i as int));
            assert(views.take(i + 1).last() == views[i as int]);
        }
        i = i + 1;
    }
    assert(views.take(shown@.len() as int) == views);
    r
}

proof fn lemma_groups_shown_contains(
    groups: Seq<SymbolGroup>,
    needle: Seq<char>,
    i: int,
    n: int,
)
    requires
        0 <= i < n <= groups.len(),
        group_shows(groups[i], needle).len() > 0,
    ensures
        groups_shown(groups, needle, n).contains((groups[i].name, group_shows(groups[i], needle))),
    decreases n,
{
    let before = groups_shown(groups, needle, n - 1);
    let entry = (groups[i].name, group_shows(groups[i], needle));
    if i == n - 1 {
        assert(before.push(entry)[before.len() as int] == entry);
    } else {
        lemma_groups_shown_contains(groups, needle, i, n - 1);
        let k = choose|k: int| 0 <= k < before.len() && before[k] == entry;
        let shown = group_shows(groups[n - 1], needle);
        if shown.len() > 0 {
            assert(before.push((groups[n - 1].name, shown))[k] == entry);
        }
    }
}

/// A group whose name, in lower case, contains the trimmed search in lower
/// case (from position `k` on, anywhere in the name) shows with all its
/// symbols.
pub proof fn law_group_named_by_search_shows_whole(
    groups: Seq<SymbolGroup>,
    search: Seq<char>,
    i: int,
    k: int,
)
    requires
        0 <= i < groups.len(),
        groups[i].symbols@.len() > 0,
        0 <= k,
        k + lowercase(trim(search)).len() <= lowercase(groups[i].name@).len(),
        lowercase(groups[i].name@).subrange(k, k + lowercase(trim(search)).len()) == lowercase(
            trim(search),
        ),
    ensures
        groups_shown(groups, needle_spec(search), groups.len() as int).contains(
            (groups[i].name, groups[i].symbols@),
        ),
{
    let needle = lowercase(trim(search));
    assert(occurs_at(lowercase(groups[i].name@), needle, k));
    assert(group_shows(groups[i], needle) == groups[i].symbols@);
    lemma_groups_shown_contains(groups, needle, i, groups.len() as int);
}

/// A symbol whose lower-case form contains the trimmed search in lower case
/// (from position `k` on) shows in its group, whatever the group's name.
pub proof fn law_symbol_matching_search_shows(
    groups: Seq<SymbolGroup>,
    search: Seq<char>,
    i: int,
    j: int,
    k: int,
)
    requires
        0 <= i < groups.len(),
        0 <= j < groups[i].symbols@.len(),
        0 <= k,
        k + lowercase(trim(search)).len() <= lowercase(groups[i].symbols@[j]@).len(),
        lowercase(groups[i].symbols@[j]@).subrange(k, k + lowercase(trim(search)).len())
            == lowercase(trim(search)),
    ensures
        exists|e: (&'static str, Seq<&'static str>)|
            #![trigger groups_shown(groups, needle_spec(search), groups.len() as int).contains(e)]
            groups_shown(groups, needle_spec(search), groups.len() as int).contains(e)
                && e.0 == groups[i].name && e.1.contains(groups[i].symbols@[j]),
{
    let needle = lowercase(trim(search));
    let g = groups[i];
    let sym = g.symbols@[j];
    assert(occurs_at(lowercase(sym@), needle, k));
    assert(symbol_passes(needle)(sym));
    let shown = group_shows(g, needle);
    if needle.len() == 0 || contains_seq(lowercase(g.name@), needle) {
        assert(shown.contains(sym)) by {
            assert(shown[j] == sym);
        }
    } else {
        assert(g.symbols@.filter(symbol_passes(needle)).contains(sym)) by {
            g.symbols@.lemma_filter_contains(symbol_passes(needle), j);
        }
    }
    lemma_groups_shown_contains(groups, needle, i, groups.len() as int);
    let e = (g.name, shown);
    assert(groups_shown(groups, needle_spec(search), groups.len() as int).contains(e));
}

proof fn lemma_groups_shown_sound(groups: Seq<SymbolGroup>, needle: Seq<char>, n: int)
    requires
        0 <= n <= groups.len(),
    ensures
        forall|a: int|
            0 <= a < groups_shown(groups, needle, n).len() ==> exists|i: int|
                0 <= i < n && (#[trigger] groups_shown(groups, needle, n)[a]) == (
                    groups[i].name,
                    group_shows(groups[i], needle),
                ),
    decreases n,
{
    if n > 0 {
        lemma_groups_shown_sound(groups, needle, n - 1);
        let before = groups_shown(groups, needle, n - 1);
        let shown = group_shows(groups[n - 1], needle);
        if shown.len() > 0 {
            let now = before.push((groups[n - 1].name, shown));
            assert forall|a: int| 0 <= a < now.len() implies exists|i: int|
                0 <= i < n && (#[trigger] now[a]) == (groups[i].name, group_shows(groups[i], needle)) by {
                if a < before.len() {
                    assert(now[a] == before[a]);
                    let i = choose|i: int| 0 <= i < n - 1 && before[a] == (groups[i].name, group_shows(groups[i], needle));
                    assert(0 <= i < n && now[a] == (groups[i].name, group_shows(groups[i], needle)));
                } else {
                    assert(now[a] == (groups[n - 1].name, group_shows(groups[n - 1], needle)));
                }
            }
        }
    }
}

/// Every symbol that the symbols tab shows comes from the group it is shown
/// under, and either the search is blank, or that group's name or the symbol
/// itself, in lower case, contains the trimmed search in lower case.
pub proof fn law_shown_symbols_match_search(groups: Seq<SymbolGroup>, search: Seq<char>, a: int, b: int)
    requires
        0 <= a < groups_shown(groups, needle_spec(search), groups.len() as int).len(),
        0 <= b < groups_shown(groups, needle_spec(search), groups.len() as int)[a].1.len(),
    ensures
        exists|i: int|
            #![trigger groups[i]]
            0 <= i < groups.len() && {
                let e = groups_shown(groups, needle_spec(search), groups.len() as int)[a];
                let needle = lowercase(trim(search));
                &&& e.0 == groups[i].name
                &&& groups[i].symbols@.contains(e.1[b])
                &&& (needle.len() == 0 || contains_seq(lowercase(groups[i].name@), needle) || contains_seq(
                    lowercase(e.1[b]@),
                    needle,
                ))
            },
{
    let needle = lowercase(trim(search));
    lemma_groups_shown_sound(groups, needle, groups.len() as int);
    let e = groups_shown(groups, needle, groups.len() as int)[a];
    let i = choose|i: int| 0 <= i < groups.len() && e == (groups[i].name, group_shows(groups[i], needle));
    let g = groups[i];
    if needle.len() == 0 || contains_seq(lowercase(g.name@), needle) {
        assert(g.symbols@.contains(e.1[b]));
    } else {
        g.symbols@.lemma_filter_pred(symbol_passes(needle), b);
        assert(g.symbols@.filter(symbol_passes(needle)).contains(e.1[b]));
        g.symbols@.lemma_filter_contains_rev(symbol_passes(needle), e.1[b]);
    }
    assert(groups[i] == g);
}

} // verus!
