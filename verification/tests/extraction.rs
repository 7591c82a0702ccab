use test262_harness::schema::{decode_description, decode_doc, encode_doc};
use test262_harness::{Error, Flag, Harness, Phase, Test};

#[test]
fn create_test() {
    let yaml = "
// License!!!
/*---
id: dummytest
esid: dummyesid
es5id: dummyes5id
es6id: dummyes6id
info: |
  a sentence about the stuff
description: a handy description
negative:
  phase: parse
  type: Exception
flags: [noStrict]
locale: [en-us]
features: [BestFeature]
---*/
let x = 'javascript';";
    let result = Harness::create_test(yaml.to_string(), String::new()).unwrap();
    let Test { desc, .. } = result;
    assert_eq!(desc.id, Some("dummytest".to_string()));
    assert_eq!(desc.esid, Some("dummyesid".to_string()));
    assert_eq!(desc.es5id, Some("dummyes5id".to_string()));
    assert_eq!(desc.es6id, Some("dummyes6id".to_string()));
    assert_eq!(desc.info, Some("a sentence about the stuff\n".to_string()));
    assert_eq!(desc.description, Some("a handy description".to_string()));
    assert_eq!(&desc.flags, &[Flag::NoStrict]);
    assert_eq!(&desc.locale, &["en-us".to_string()]);
    assert_eq!(&desc.features, &["BestFeature".to_string()]);
    let negative = desc.negative.unwrap();
    assert_eq!(negative.phase, Phase::Parse);
    assert_eq!(negative.kind, Some("Exception".to_string()));
}

#[test]
fn can_not_get_license() {
    let yaml = "
// License!!!
/*---
id: dummytest
---*/
let x = 'javascript';
";
    let result = Harness::create_test(yaml.to_string(), String::new()).unwrap();
    assert_eq!(result.license(), None);
}

#[test]
fn can_get_license() {
    let yaml = "// Copyright (c) 2020 rusty-ecma.  All rights reserved.
// This code is governed by the MIT license found in the LICENSE file.

/*---
id: dummytest
---*/
let x = 'javascript';
";
    let result = Harness::create_test(yaml.to_string(), String::new()).unwrap();
    assert_eq!(
        result.license(),
        Some(
            "// Copyright (c) 2020 rusty-ecma.  All rights reserved.
// This code is governed by the MIT license found in the LICENSE file.
"
        )
    );
}

#[test]
fn license_matched_case_insensitively() {
    let text = "// COPYRIGHT 2009 the authors.  ALL RIGHTS RESERVED.
// SEE LICENSE FOR DETAILS.
/*---
id: t
---*/
";
    let result = Harness::create_test(text.to_string(), String::new()).unwrap();
    assert_eq!(
        result.license(),
        Some("// COPYRIGHT 2009 the authors.  ALL RIGHTS RESERVED.\n// SEE LICENSE FOR DETAILS.\n")
    );
}

#[test]
fn find_yaml_returns_exact_span() {
    let text = "ab/*---X---*/cd";
    let span = Harness::find_yaml(text, "p").unwrap();
    assert_eq!(span, (7, 8));
    assert_eq!(&text[7..8], "X");
}

#[test]
fn find_yaml_missing_both_delimiters() {
    let err = Harness::find_yaml("let x = 1;", "some/path.js").unwrap_err();
    assert_eq!(err, Error::DescriptionInvalid("some/path.js".to_string()));
}

#[test]
fn find_yaml_missing_close_delimiter() {
    let err = Harness::find_yaml("/*--- id: t", "p.js").unwrap_err();
    assert_eq!(err, Error::DescriptionInvalid("p.js".to_string()));
}

#[test]
fn find_yaml_missing_open_delimiter() {
    let err = Harness::find_yaml("id: t ---*/", "p.js").unwrap_err();
    assert_eq!(err, Error::DescriptionInvalid("p.js".to_string()));
}

#[test]
fn create_test_rejects_crossed_delimiters() {
    let err = Harness::create_test("---*/ xx /*---".to_string(), "q.js".to_string()).unwrap_err();
    assert_eq!(err, Error::DescriptionInvalid("q.js".to_string()));
}

#[test]
fn create_test_rejects_empty_metadata() {
    let err = Harness::create_test("/*------*/".to_string(), "e.js".to_string()).unwrap_err();
    assert!(matches!(err, Error::Yaml(_)));
}

#[test]
fn flag_aliases_decode() {
    let text = "/*---
flags: [canBlockIsFalse, CanBlockIsTrue, non-deterministic, onlyStrict]
---*/";
    let result = Harness::create_test(text.to_string(), String::new()).unwrap();
    assert_eq!(
        result.desc.flags,
        vec![
            Flag::CanBlockIsFalse,
            Flag::CanBlockIsTrue,
            Flag::NonDeterministic,
            Flag::OnlyStrict,
        ]
    );
}

#[test]
fn negative_kind_under_alias_key() {
    let text = "/*---
negative: {phase: runtime, kind: TypeError}
---*/";
    let result = Harness::create_test(text.to_string(), String::new()).unwrap();
    let negative = result.desc.negative.unwrap();
    assert_eq!(negative.phase, Phase::Runtime);
    assert_eq!(negative.kind, Some("TypeError".to_string()));
}

#[test]
fn unknown_flag_is_schema_error() {
    let text = "/*---
flags: [bogusFlag]
---*/";
    let err = Harness::create_test(text.to_string(), String::new()).unwrap_err();
    assert!(matches!(err, Error::Yaml(_)));
}

#[test]
fn negative_without_phase_is_schema_error() {
    let text = "/*---
negative:
  kind: SyntaxError
---*/";
    let err = Harness::create_test(text.to_string(), String::new()).unwrap_err();
    assert!(matches!(err, Error::Yaml(_)));
}

#[test]
fn unknown_phase_is_schema_error() {
    let text = "/*---
negative: {phase: later}
---*/";
    let err = Harness::create_test(text.to_string(), String::new()).unwrap_err();
    assert!(matches!(err, Error::Yaml(_)));
}

#[test]
fn unknown_keys_are_tolerated() {
    let text = "/*---
id: t
futureKey: [some, values]
---*/";
    let result = Harness::create_test(text.to_string(), String::new()).unwrap();
    assert_eq!(result.desc.id, Some("t".to_string()));
    assert!(result.desc.includes.is_empty());
    assert!(result.desc.flags.is_empty());
    assert!(result.desc.locale.is_empty());
    assert!(result.desc.features.is_empty());
}

#[test]
fn absent_identifiers_are_not_an_error() {
    let text = "/*---
description: nothing else set
---*/";
    let result = Harness::create_test(text.to_string(), String::new()).unwrap();
    assert_eq!(result.desc.id, None);
    assert_eq!(result.desc.esid, None);
    assert_eq!(result.desc.es5id, None);
    assert_eq!(result.desc.es6id, None);
    assert_eq!(result.desc.negative, None);
}

#[test]
fn decoding_is_idempotent() {
    let metadata = "id: twice\nflags: [module]\nincludes: [helper.js]\n";
    let chars: Vec<char> = metadata.chars().collect();
    let first = decode_description(&chars).unwrap();
    let second = decode_description(&chars).unwrap();
    assert_eq!(first, second);
}

#[test]
fn reencoding_preserves_fields() {
    let metadata = "id: round\nesid: sec-round\ninfo: long text\nnegative: {phase: early, kind: E}\nflags: [raw, async]\nincludes: [a.js, b.js]\nlocale: [en-US]\nfeatures: [F1]\n";
    let chars: Vec<char> = metadata.chars().collect();
    let decoded = decode_description(&chars).unwrap();
    let reencoded = encode_doc(&decoded);
    let decoded_again = decode_doc(&reencoded).unwrap();
    assert_eq!(decoded, decoded_again);
}

#[test]
fn carriage_returns_are_normalized_before_decode() {
    let text = "/*---\r\nid: cr\r\ndescription: d\r\n---*/\r\n";
    let result = Harness::create_test(text.to_string(), String::new()).unwrap();
    assert_eq!(result.desc.id, Some("cr".to_string()));
    assert_eq!(result.desc.description, Some("d".to_string()));
}

#[test]
fn license_bsd_style_two_line_phrasing() {
    let text = "// Copyright 2013 the V8 project authors. All rights reserved.
// Use of this source code is governed by a BSD-style license that can be
// found in the LICENSE file.
/*---
id: t
---*/
";
    let result = Harness::create_test(text.to_string(), String::new()).unwrap();
    let expected = "// Copyright 2013 the V8 project authors. All rights reserved.
// Use of this source code is governed by a BSD-style license that can be
// found in the LICENSE file.
";
    assert_eq!(result.license(), Some(expected));
}

#[test]
fn license_web_reference_phrasing() {
    let text = "// Copyright (C) 2017 Someone. All rights reserved.
// See LICENSE or https://github.com/tc39/test262/blob/master/LICENSE
/*---
id: t
---*/
";
    let result = Harness::create_test(text.to_string(), String::new()).unwrap();
    let expected = "// Copyright (C) 2017 Someone. All rights reserved.
// See LICENSE or https://github.com/tc39/test262/blob/master/LICENSE
";
    assert_eq!(result.license(), Some(expected));
}

#[test]
fn license_not_at_start_of_text() {
    let text = "let before = true;
// Copyright 2020 somebody else entirely.  All rights reserved.
// See LICENSE for details.
/*---
id: t
---*/
";
    let result = Harness::create_test(text.to_string(), String::new()).unwrap();
    let license = result.license().unwrap();
    assert!(license.starts_with("// Copyright 2020"));
    assert!(text[..text.find("// Copyright").unwrap()].find(license).is_none());
}
