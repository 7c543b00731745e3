use vouch::parser::parse_raw_hunks;

const SAMPLE_DIFF: &str = "diff --git a/auth.py b/auth.py
index 1111111..2222222 100644
--- a/auth.py
+++ b/auth.py
@@ -10,5 +10,6 @@ def check_access(user):
     if user is None:
         return False
-    return user.role == \"admin\"
+    if user.role == \"admin\":
+        return True
+    return user.is_staff
diff --git a/views.py b/views.py
index 3333333..4444444 100644
--- a/views.py
+++ b/views.py
@@ -45 +45,4 @@ def index(request):
+def admin(request):
+    return render(request, \"admin.html\")
";

#[test]
fn parses_sample_diff() {
    let hunks = parse_raw_hunks(SAMPLE_DIFF);
    assert_eq!(hunks.len(), 2);
    assert_eq!(hunks[0].file, "auth.py");
    assert_eq!(hunks[1].file, "views.py");
    assert_eq!(hunks[0].id, "r0");
    assert_eq!(hunks[1].id, "r1");
    assert!(hunks[0].body.contains("admin") || hunks[0].header.contains("admin"));
}

#[test]
fn empty_diff() {
    assert!(parse_raw_hunks("").is_empty());
}

#[test]
fn whitespace_only_diff() {
    assert!(parse_raw_hunks("   \n\n  ").is_empty());
}

#[test]
fn parses_single_line_hunk_without_comma() {
    let diff = "diff --git a/a.txt b/a.txt\n--- a/a.txt\n+++ b/a.txt\n@@ -1 +1,2 @@\n hello\n+world\n";
    let hunks = parse_raw_hunks(diff);
    assert_eq!(hunks.len(), 1);
    assert_eq!(hunks[0].file, "a.txt");
    assert_eq!(hunks[0].old_start, 1);
    assert_eq!(hunks[0].old_lines, 1);
    assert_eq!(hunks[0].new_start, 1);
    assert_eq!(hunks[0].new_lines, 2);
    assert!(hunks[0].body.contains("+world"));
}

#[test]
fn sample_hunks_exact_fields() {
    let hunks = parse_raw_hunks(SAMPLE_DIFF);
    assert_eq!(hunks[0].header, "@@ -10,5 +10,6 @@");
    assert_eq!(hunks[0].body.lines().count(), 6);
    assert!(hunks[0].body.starts_with("     if user is None:"));
    assert_eq!(hunks[1].header, "@@ -45,1 +45,4 @@");
    assert_eq!(hunks[1].old_lines, 1);
    assert_eq!(
        hunks[1].body,
        "+def admin(request):\n+    return render(request, \"admin.html\")"
    );
}

#[test]
fn several_hunks_in_one_file_and_crlf() {
    let diff = "--- a/x.c\r\n+++ b/x.c\r\n@@ -1,2 +1,2 @@\r\n-a\r\n+b\r\n@@ -10,0 +11,3 @@\r\n+c\r\n\r\n";
    let hunks = parse_raw_hunks(diff);
    assert_eq!(hunks.len(), 2);
    assert_eq!(hunks[0].id, "r0");
    assert_eq!(hunks[0].body, "-a\n+b");
    assert_eq!(hunks[1].id, "r1");
    assert_eq!(hunks[1].old_start, 10);
    assert_eq!(hunks[1].old_lines, 0);
    assert_eq!(hunks[1].new_start, 11);
    assert_eq!(hunks[1].new_lines, 3);
    assert_eq!(hunks[1].body, "+c\n");
    assert_eq!(hunks[1].file, "x.c");
}

#[test]
fn deleted_file_keeps_old_name_and_plus_dev_null_closes_hunk() {
    let diff = "--- a/gone.txt\n+++ /dev/null\n@@ -1,2 +0,0 @@\n-one\n-two\n";
    let hunks = parse_raw_hunks(diff);
    assert_eq!(hunks.len(), 1);
    assert_eq!(hunks[0].file, "gone.txt");
    assert_eq!(hunks[0].new_start, 0);
    assert_eq!(hunks[0].body, "-one\n-two");
}

#[test]
fn numbers_that_overflow_take_defaults() {
    let diff = "+++ b/f\n@@ -99999999999,99999999999 +3 @@ ctx\n+x\n";
    let hunks = parse_raw_hunks(diff);
    assert_eq!(hunks.len(), 1);
    assert_eq!(hunks[0].old_start, 0);
    assert_eq!(hunks[0].old_lines, 1);
    assert_eq!(hunks[0].new_start, 3);
    assert_eq!(hunks[0].new_lines, 1);
    assert_eq!(hunks[0].header, "@@ -0,1 +3,1 @@");
}

#[test]
fn malformed_headers_are_not_hunks() {
    let diff = "+++ b/f\n@@ -1, +1 @@\n+a\n@@ -1 +1\n@@ -a +1 @@\n";
    assert!(parse_raw_hunks(diff).is_empty());
}

#[test]
fn non_ascii_digits_match_but_do_not_parse() {
    let diff = "+++ b/f\n@@ -\u{0663} +2,\u{0664} @@\n+a\n";
    let hunks = parse_raw_hunks(diff);
    assert_eq!(hunks.len(), 1);
    assert_eq!(hunks[0].old_start, 0);
    assert_eq!(hunks[0].new_start, 2);
    assert_eq!(hunks[0].new_lines, 1);
}

#[test]
fn lines_outside_a_hunk_are_ignored() {
    let diff = "+++ b/f\n+stray\n@@ -1 +1 @@\n context\nnot a body line\n-gone\n";
    let hunks = parse_raw_hunks(diff);
    assert_eq!(hunks.len(), 1);
    assert_eq!(hunks[0].body, " context\n-gone");
}

#[test]
fn hunk_count_equals_header_count() {
    let diff = "+++ b/a\n@@ -1 +1 @@\n+x\n+++ b/b\n@@ -2 +2 @@\n@@ -3 +3 @@\n";
    let hunks = parse_raw_hunks(diff);
    assert_eq!(hunks.len(), 3);
    assert_eq!(hunks[0].file, "a");
    assert_eq!(hunks[1].file, "b");
    assert_eq!(hunks[2].id, "r2");
    assert_eq!(hunks[1].body, "");
}

#[test]
fn deleted_second_file_gets_its_own_name() {
    let diff = "--- a/x.py\n+++ b/x.py\n@@ -1 +1 @@\n-a\n+b\n--- a/gone.py\n+++ /dev/null\n@@ -1 +0,0 @@\n-x\n";
    let hunks = parse_raw_hunks(diff);
    assert_eq!(hunks.len(), 2);
    assert_eq!(hunks[0].file, "x.py");
    assert_eq!(hunks[0].body, "-a\n+b");
    assert_eq!(hunks[1].file, "gone.py");
    assert_eq!(hunks[1].body, "-x");
    assert_eq!(hunks[1].new_start, 0);
    assert_eq!(hunks[1].new_lines, 0);
    assert_eq!(hunks[1].id, "r1");
}

#[test]
fn minus_header_ends_the_open_hunk() {
    let diff = "--- a/a.txt\n+++ b/a.txt\n@@ -1 +1 @@\n-a\n+b\n--- a/b.txt\n+++ b/b.txt\n@@ -2 +2 @@\n+c\n";
    let hunks = parse_raw_hunks(diff);
    assert_eq!(hunks.len(), 2);
    assert_eq!(hunks[0].file, "a.txt");
    assert_eq!(hunks[0].body, "-a\n+b");
    assert_eq!(hunks[1].file, "b.txt");
}
