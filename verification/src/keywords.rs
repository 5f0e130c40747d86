//! The keyword tables: the fixed set of words that identifier
//! classification recognizes, case-insensitively, as keywords rather than
//! identifiers. One group is common to both dialects; a second group is
//! recognized under the FO4 dialect only.

use vstd::prelude::*;
use vstd::string::StringExecFns;

use crate::Game;

verus! {

/// The keyword a keyword token stands for.
#[derive(PartialEq, Eq, Structural, Clone, Copy, Debug)]
pub enum KwKind {
    As,
    Auto,
    AutoReadOnly,
    Bool,
    Else,
    ElseIf,
    EndEvent,
    EndFunction,
    EndIf,
    EndProperty,
    EndState,
    EndWhile,
    Event,
    Extends,
    False,
    Float,
    Function,
    Global,
    If,
    Import,
    Int,
    Length,
    Native,
    New,
    NoneKw,
    Parent,
    Property,
    Return,
    ScriptName,
    _Self,
    State,
    String,
    True,
    While,
    // Keywords of the FO4 dialect only.
    BetaOnly,
    Const,
    CustomEvent,
    CustomEventName,
    DebugOnly,
    EndGroup,
    EndStruct,
    Group,
    Is,
    ScriptEventName,
    Struct,
    StructVarName,
    Var,
}

/// Part 1 of the keyword table common to both dialects.
pub open spec fn spec_kw_common_1(lower: Seq<char>) -> Option<KwKind> {
    if lower == "as"@ {
        Some(KwKind::As)
    } else if lower == "auto"@ {
        Some(KwKind::Auto)
    } else if lower == "autoreadonly"@ {
        Some(KwKind::AutoReadOnly)
    } else if lower == "bool"@ {
        Some(KwKind::Bool)
    } else if lower == "else"@ {
        Some(KwKind::Else)
    } else if lower == "elseif"@ {
        Some(KwKind::ElseIf)
    } else if lower == "endevent"@ {
        Some(KwKind::EndEvent)
    } else if lower == "endfunction"@ {
        Some(KwKind::EndFunction)
    } else if lower == "endif"@ {
        Some(KwKind::EndIf)
    } else {
        None
    }
}

/// Part 2 of the keyword table common to both dialects.
pub open spec fn spec_kw_common_2(lower: Seq<char>) -> Option<KwKind> {
    if lower == "endproperty"@ {
        Some(KwKind::EndProperty)
    } else if lower == "endstate"@ {
        Some(KwKind::EndState)
    } else if lower == "endwhile"@ {
        Some(KwKind::EndWhile)
    } else if lower == "event"@ {
        Some(KwKind::Event)
    } else if lower == "extends"@ {
        Some(KwKind::Extends)
    } else if lower == "false"@ {
        Some(KwKind::False)
    } else if lower == "float"@ {
        Some(KwKind::Float)
    } else if lower == "function"@ {
        Some(KwKind::Function)
    } else if lower == "global"@ {
        Some(KwKind::Global)
    } else {
        None
    }
}

/// Part 3 of the keyword table common to both dialects.
pub open spec fn spec_kw_common_3(lower: Seq<char>) -> Option<KwKind> {
    if lower == "if"@ {
        Some(KwKind::If)
    } else if lower == "import"@ {
        Some(KwKind::Import)
    } else if lower == "int"@ {
        Some(KwKind::Int)
    } else if lower == "length"@ {
        Some(KwKind::Length)
    } else if lower == "native"@ {
        Some(KwKind::Native)
    } else if lower == "new"@ {
        Some(KwKind::New)
    } else if lower == "none"@ {
        Some(KwKind::NoneKw)
    } else if lower == "parent"@ {
        Some(KwKind::Parent)
    } else if lower == "property"@ {
        Some(KwKind::Property)
    } else {
        None
    }
}

/// Part 4 of the keyword table common to both dialects.
pub open spec fn spec_kw_common_4(lower: Seq<char>) -> Option<KwKind> {
    if lower == "return"@ {
        Some(KwKind::Return)
    } else if lower == "scriptname"@ {
        Some(KwKind::ScriptName)
    } else if lower == "self"@ {
        Some(KwKind::_Self)
    } else if lower == "state"@ {
        Some(KwKind::State)
    } else if lower == "string"@ {
        Some(KwKind::String)
    } else if lower == "true"@ {
        Some(KwKind::True)
    } else if lower == "while"@ {
        Some(KwKind::While)
    } else {
        None
    }
}

/// Part 1 of the keywords recognized under the FO4 dialect only.
pub open spec fn spec_kw_fo4_1(lower: Seq<char>) -> Option<KwKind> {
    if lower == "betaonly"@ {
        Some(KwKind::BetaOnly)
    } else if lower == "const"@ {
        Some(KwKind::Const)
    } else if lower == "customevent"@ {
        Some(KwKind::CustomEvent)
    } else if lower == "customeventname"@ {
        Some(KwKind::CustomEventName)
    } else if lower == "debugonly"@ {
        Some(KwKind::DebugOnly)
    } else if lower == "endgroup"@ {
        Some(KwKind::EndGroup)
    } else if lower == "endstruct"@ {
        Some(KwKind::EndStruct)
    } else {
        None
    }
}

/// Part 2 of the keywords recognized under the FO4 dialect only.
pub open spec fn spec_kw_fo4_2(lower: Seq<char>) -> Option<KwKind> {
    if lower == "group"@ {
        Some(KwKind::Group)
    } else if lower == "is"@ {
        Some(KwKind::Is)
    } else if lower == "scripteventname"@ {
        Some(KwKind::ScriptEventName)
    } else if lower == "struct"@ {
        Some(KwKind::Struct)
    } else if lower == "structvarname"@ {
        Some(KwKind::StructVarName)
    } else if lower == "var"@ {
        Some(KwKind::Var)
    } else {
        None
    }
}

/// The keyword, if any, that the lower-cased identifier text `lower` spells
/// in the given dialect: the common table always applies, the FO4 table only
/// under the FO4 dialect.
pub open spec fn spec_keyword(lower: Seq<char>, game: Game) -> Option<KwKind> {
    if spec_kw_common_1(lower) is Some {
        spec_kw_common_1(lower)
    } else if spec_kw_common_2(lower) is Some {
        spec_kw_common_2(lower)
    } else if spec_kw_common_3(lower) is Some {
        spec_kw_common_3(lower)
    } else if spec_kw_common_4(lower) is Some {
        spec_kw_common_4(lower)
    } else if game != Game::FO4 {
        None
    } else if spec_kw_fo4_1(lower) is Some {
        spec_kw_fo4_1(lower)
    } else if spec_kw_fo4_2(lower) is Some {
        spec_kw_fo4_2(lower)
    } else {
        None
    }
}

/// Looks the lower-cased identifier text up in the dialect's keyword table.
pub fn keyword_lookup(lower: &String, game: &Game) -> (r: Option<KwKind>)
    ensures
        r == spec_keyword(lower@, *game),
{
    if *lower == String::from_str("as") {
        return Some(KwKind::As);
    }
    if *lower == String::from_str("auto") {
        return Some(KwKind::Auto);
    }
    if *lower == String::from_str("autoreadonly") {
        return Some(KwKind::AutoReadOnly);
    }
    if *lower == String::from_str("bool") {
        return Some(KwKind::Bool);
    }
    if *lower == String::from_str("else") {
        return Some(KwKind::Else);
    }
    if *lower == String::from_str("elseif") {
        return Some(KwKind::ElseIf);
    }
    if *lower == String::from_str("endevent") {
        return Some(KwKind::EndEvent);
    }
    if *lower == String::from_str("endfunction") {
        return Some(KwKind::EndFunction);
    }
    if *lower == String::from_str("endif") {
        return Some(KwKind::EndIf);
    }
    if *lower == String::from_str("endproperty") {
        return Some(KwKind::EndProperty);
    }
    if *lower == String::from_str("endstate") {
        return Some(KwKind::EndState);
    }
    if *lower == String::from_str("endwhile") {
        return Some(KwKind::EndWhile);
    }
    if *lower == String::from_str("event") {
        return Some(KwKind::Event);
    }
    if *lower == String::from_str("extends") {
        return Some(KwKind::Extends);
    }
    if *lower == String::from_str("false") {
        return Some(KwKind::False);
    }
    if *lower == String::from_str("float") {
        return Some(KwKind::Float);
    }
    if *lower == String::from_str("function") {
        return Some(KwKind::Function);
    }
    if *lower == String::from_str("global") {
        return Some(KwKind::Global);
    }
    if *lower == String::from_str("if") {
        return Some(KwKind::If);
    }
    if *lower == String::from_str("import") {
        return Some(KwKind::Import);
    }
    if *lower == String::from_str("int") {
        return Some(KwKind::Int);
    }
    if *lower == String::from_str("length") {
        return Some(KwKind::Length);
    }
    if *lower == String::from_str("native") {
        return Some(KwKind::Native);
    }
    if *lower == String::from_str("new") {
        return Some(KwKind::New);
    }
    if *lower == String::from_str("none") {
        return Some(KwKind::NoneKw);
    }
    if *lower == String::from_str("parent") {
        return Some(KwKind::Parent);
    }
    if *lower == String::from_str("property") {
        return Some(KwKind::Property);
    }
    if *lower == String::from_str("return") {
        return Some(KwKind::Return);
    }
    if *lower == String::from_str("scriptname") {
        return Some(KwKind::ScriptName);
    }
    if *lower == String::from_str("self") {
        return Some(KwKind::_Self);
    }
    if *lower == String::from_str("state") {
        return Some(KwKind::State);
    }
    if *lower == String::from_str("string") {
        return Some(KwKind::String);
    }
    if *lower == String::from_str("true") {
        return Some(KwKind::True);
    }
    if *lower == String::from_str("while") {
        return Some(KwKind::While);
    }
    if *game == Game::FO4 {
        if *lower == String::from_str("betaonly") {
            return Some(KwKind::BetaOnly);
        }
        if *lower == String::from_str("const") {
            return Some(KwKind::Const);
        }
        if *lower == String::from_str("customevent") {
            return Some(KwKind::CustomEvent);
        }
        if *lower == String::from_str("customeventname") {
            return Some(KwKind::CustomEventName);
        }
        if *lower == String::from_str("debugonly") {
            return Some(KwKind::DebugOnly);
        }
        if *lower == String::from_str("endgroup") {
            return Some(KwKind::EndGroup);
        }
        if *lower == String::from_str("endstruct") {
            return Some(KwKind::EndStruct);
        }
        if *lower == String::from_str("group") {
            return Some(KwKind::Group);
        }
        if *lower == String::from_str("is") {
            return Some(KwKind::Is);
        }
        if *lower == String::from_str("scripteventname") {
            return Some(KwKind::ScriptEventName);
        }
        if *lower == String::from_str("struct") {
            return Some(KwKind::Struct);
        }
        if *lower == String::from_str("structvarname") {
            return Some(KwKind::StructVarName);
        }
        if *lower == String::from_str("var") {
            return Some(KwKind::Var);
        }
    }
    None
}

} // verus!
