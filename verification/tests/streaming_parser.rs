use onetcli::models::DatabaseType;
use onetcli::streaming_parser::{SqlSource, StreamingSqlParser};

fn parse_all(sql: &str) -> Vec<String> {
    let mut parser = StreamingSqlParser::from_script(sql.to_string(), DatabaseType::PostgreSQL);
    let mut statements = Vec::new();
    while let Some(stmt) = parser.next() {
        statements.push(stmt);
    }
    statements
}

/// Progress as a percentage, computed as the application shows it.
fn progress_percent(parser: &StreamingSqlParser) -> f32 {
    if parser.total_size() > 0 {
        (parser.bytes_read() as f64 / parser.total_size() as f64 * 100.0) as f32
    } else {
        0.0
    }
}

    #[test]
    fn test_basic_statements() {
        let sql = "SELECT * FROM users;\nINSERT INTO users VALUES (1, 'test');\nUPDATE users SET name = 'new';";
        let statements = parse_all(sql);

        assert_eq!(statements.len(), 3);
        assert_eq!(statements[0], "SELECT * FROM users");
        assert_eq!(statements[1], "INSERT INTO users VALUES (1, 'test')");
        assert_eq!(statements[2], "UPDATE users SET name = 'new'");
    }

    #[test]
    fn test_string_with_backslash_escape() {
        let sql =
            "INSERT INTO t VALUES ('it\\'s good');\nINSERT INTO t VALUES ('path\\\\to\\\\file');";
        let statements = parse_all(sql);

        assert_eq!(statements.len(), 2);
        assert_eq!(statements[0], "INSERT INTO t VALUES ('it\\'s good')");
        assert_eq!(statements[1], "INSERT INTO t VALUES ('path\\\\to\\\\file')");
    }

    #[test]
    fn test_string_with_double_quote_escape() {
        let sql =
            "INSERT INTO t VALUES ('it''s good');\nINSERT INTO t VALUES ('quote''test''here');";
        let statements = parse_all(sql);

        assert_eq!(statements.len(), 2);
        assert_eq!(statements[0], "INSERT INTO t VALUES ('it''s good')");
        assert_eq!(statements[1], "INSERT INTO t VALUES ('quote''test''here')");
    }

    #[test]
    fn test_mixed_escapes() {
        let sql = "INSERT INTO t VALUES ('test\\'s', 'he''s', 'path\\\\x');\nSELECT * FROM t;";
        let statements = parse_all(sql);

        assert_eq!(statements.len(), 2);
        assert!(statements[0].contains("'test\\'s'"));
        assert!(statements[0].contains("'he''s'"));
        assert!(statements[0].contains("'path\\\\x'"));
    }

    #[test]
    fn test_line_comments() {
        let sql = "-- This is a comment\nSELECT * FROM users; -- inline comment\n-- Another comment\nINSERT INTO t VALUES (1);";
        let statements = parse_all(sql);

        assert_eq!(statements.len(), 2);
        assert!(statements[0].contains("SELECT * FROM users"));
        assert!(statements[1].contains("INSERT INTO t VALUES (1)"));
    }

    #[test]
    fn test_block_comments() {
        let sql = "/* This is a block comment */\nSELECT * FROM users; /* inline */ DELETE FROM t;";
        let statements = parse_all(sql);

        assert_eq!(statements.len(), 2);
        assert!(statements[0].contains("SELECT"));
        assert!(statements[1].contains("DELETE"));
    }

    #[test]
    fn test_delimiter_change() {
        let sql =
            "DELIMITER $$\nCREATE PROCEDURE p() BEGIN SELECT 1; END$$\nDELIMITER ;\nSELECT 2;";
        let statements = parse_all(sql);

        assert_eq!(statements.len(), 2);
        assert!(statements[0].contains("CREATE PROCEDURE"));
        assert!(statements[0].contains("BEGIN"));
        assert!(statements[0].contains("END"));
        assert_eq!(statements[1], "SELECT 2");
    }

    #[test]
    fn test_begin_end_block() {
        let sql = "BEGIN\n  SELECT 1;\n  SELECT 2;\nEND;\nSELECT 3;";
        let statements = parse_all(sql);

        assert_eq!(statements.len(), 2);
        assert!(statements[0].contains("BEGIN"));
        assert!(statements[0].contains("END"));
        assert_eq!(statements[1], "SELECT 3");
    }

    #[test]
    fn test_nested_parentheses() {
        let sql = "SELECT * FROM t WHERE id IN (SELECT id FROM u WHERE (status = 1 AND (flag = 0)));\nINSERT INTO t VALUES (1);";
        let statements = parse_all(sql);

        assert_eq!(statements.len(), 2);
        assert!(statements[0].contains("IN (SELECT"));
    }

    #[test]
    fn test_postgresql_dollar_quote() {
        let sql = "CREATE FUNCTION f() RETURNS void AS $$\nBEGIN\n  SELECT 'test;here';\nEND;\n$$ LANGUAGE plpgsql;\nSELECT 1;";
        let statements = parse_all(sql);

        assert_eq!(statements.len(), 2);
        assert!(statements[0].contains("$$"));
        assert!(statements[0].contains("'test;here'"));
        assert_eq!(statements[1], "SELECT 1");
    }

    #[test]
    fn test_postgresql_tagged_dollar_quote() {
        let sql = "CREATE FUNCTION f() RETURNS text AS $body$\nSELECT 'test; with semicolon';\n$body$ LANGUAGE sql;\nSELECT 2;";
        let statements = parse_all(sql);

        assert_eq!(statements.len(), 2);
        assert!(statements[0].contains("$body$"));
        assert!(statements[0].contains("semicolon"));
    }

    #[test]
    fn test_unicode_content() {
        let sql = "INSERT INTO t VALUES ('中文测试');\nINSERT INTO t VALUES ('日本語');\nINSERT INTO t VALUES ('한글');";
        let statements = parse_all(sql);

        assert_eq!(statements.len(), 3);
        assert!(statements[0].contains("中文测试"));
        assert!(statements[1].contains("日本語"));
        assert!(statements[2].contains("한글"));
    }

    #[test]
    fn test_unicode_with_escapes() {
        let sql = "INSERT INTO t VALUES ('测试\\'引号');\nINSERT INTO t VALUES ('test''测试');";
        let statements = parse_all(sql);

        assert_eq!(statements.len(), 2);
        assert!(statements[0].contains("测试\\'引号"));
        assert!(statements[1].contains("test''测试"));
    }

    #[test]
    fn test_multiline_statement() {
        let sql = "INSERT INTO users (\n  id,\n  name,\n  email\n)\nVALUES (\n  1,\n  'test',\n  'test@example.com'\n);\nSELECT 1;";
        let statements = parse_all(sql);

        assert_eq!(statements.len(), 2);
        assert!(statements[0].contains("INSERT INTO users"));
        assert!(statements[0].contains("test@example.com"));
    }

    #[test]
    fn test_empty_statements() {
        let sql = ";;;\nSELECT 1;\n;\n;;SELECT 2;";
        let statements = parse_all(sql);

        assert_eq!(statements.len(), 2);
        assert_eq!(statements[0], "SELECT 1");
        assert_eq!(statements[1], "SELECT 2");
    }

    #[test]
    fn test_complex_real_world_dump() {
        let sql = r#"
-- MySQL dump example
DROP TABLE IF EXISTS `users`;
/*!40101 SET @saved_cs_client     = @@character_set_client */;
CREATE TABLE `users` (
  `id` int(11) NOT NULL AUTO_INCREMENT,
  `name` varchar(100) DEFAULT NULL,
  `email` varchar(100) DEFAULT 'test@example.com',
  PRIMARY KEY (`id`)
) ENGINE=InnoDB DEFAULT CHARSET=utf8mb4;

LOCK TABLES `users` WRITE;
INSERT INTO `users` VALUES (1,'O\'Reilly','test@mail.com'),(2,'It''s fine','user@test.com');
UNLOCK TABLES;
"#;
        let statements = parse_all(sql);

        assert!(statements.len() >= 5);
        assert!(statements.iter().any(|s| s.contains("DROP TABLE")));
        assert!(statements.iter().any(|s| s.contains("CREATE TABLE")));
        assert!(statements.iter().any(|s| s.contains("O\\'Reilly")));
        assert!(statements.iter().any(|s| s.contains("It''s fine")));
    }

    #[test]
    fn test_string_with_semicolon_inside() {
        let sql = "INSERT INTO t VALUES ('SELECT * FROM users; DELETE FROM t;');\nSELECT 1;";
        let statements = parse_all(sql);

        assert_eq!(statements.len(), 2);
        assert!(statements[0].contains("SELECT * FROM users; DELETE FROM t;"));
        assert_eq!(statements[1], "SELECT 1");
    }

    #[test]
    fn test_backtick_identifiers() {
        let sql = "SELECT `id`, `name` FROM `users`;\nINSERT INTO `table` VALUES (1, 'test;here');";
        let statements = parse_all(sql);

        assert_eq!(statements.len(), 2);
        assert!(statements[0].contains("`id`"));
        assert!(statements[1].contains("'test;here'"));
    }

    #[test]
    fn test_double_quote_identifiers() {
        let sql = r#"SELECT "id", "name" FROM "users";"#;
        let statements = parse_all(sql);

        assert_eq!(statements.len(), 1);
        assert!(statements[0].contains(r#""id""#));
    }

    #[test]
    fn test_mixed_quotes() {
        let sql = r#"SELECT 'single', "double", `backtick` FROM t WHERE x = 'it''s' AND y = "col""name";"#;
        let statements = parse_all(sql);

        assert_eq!(statements.len(), 1);
        assert!(statements[0].contains("'single'"));
        assert!(statements[0].contains("'it''s'"));
    }

    #[test]
    fn test_progress_tracking() {
        let sql = "SELECT 1;\nSELECT 2;\nSELECT 3;";
        let mut parser = StreamingSqlParser::from_source(
            SqlSource::Script(sql.to_string()),
            DatabaseType::PostgreSQL,
        )
        .unwrap();

        assert_eq!(progress_percent(&parser), 0.0);

        let _ = parser.next();
        assert!(progress_percent(&parser) > 0.0);
        assert!(progress_percent(&parser) < 100.0);

        while parser.next().is_some() {}
        assert_eq!(progress_percent(&parser), 100.0);
    }

    #[test]
    fn test_pure_comment_after_statement() {
        // 测试语句后跟纯注释的情况，纯注释不应该被当作独立语句
        let sql = "SELECT id, username, create_by FROM login_user; -- ❌ 列不存在";
        let statements = parse_all(sql);

        assert_eq!(statements.len(), 1);
        assert_eq!(
            statements[0],
            "SELECT id, username, create_by FROM login_user"
        );
    }

    #[test]
    fn test_pure_comment_only() {
        // 测试只有纯注释的情况
        let sql = "-- 这是一个注释";
        let statements = parse_all(sql);

        assert_eq!(statements.len(), 0);
    }

    #[test]
    fn test_multiple_pure_comments() {
        // 测试多个纯注释
        let sql = "-- 注释1\n-- 注释2\n/* 块注释 */";
        let statements = parse_all(sql);

        assert_eq!(statements.len(), 0);
    }

    #[test]
    fn test_mixed_comments_and_statements() {
        // 测试混合场景
        let sql = "SELECT 1; -- 注释\n-- 纯注释\nSELECT 2; /* 行尾注释 */";
        let statements = parse_all(sql);

        assert_eq!(statements.len(), 2);
        assert!(statements[0].contains("SELECT 1"));
        assert!(statements[1].contains("SELECT 2"));
    }

    #[test]
    fn test_nested_begin_end() {
        let sql = "BEGIN\n  BEGIN\n    SELECT 1;\n  END;\n  SELECT 2;\nEND;\nSELECT 3;";
        let statements = parse_all(sql);

        assert_eq!(statements.len(), 2);
        assert!(statements[0].contains("BEGIN"));
        assert!(statements[0].contains("SELECT 1"));
        assert!(statements[0].contains("SELECT 2"));
    }

    #[test]
    fn test_create_procedure_with_complex_body() {
        let sql = r#"DELIMITER $$
CREATE PROCEDURE complex_proc(IN param INT)
BEGIN
    DECLARE var VARCHAR(100);
    SET var = 'test;value';

    -- Comment with semicolon;
    IF param > 0 THEN
        SELECT * FROM users WHERE name = 'O''Reilly';
    ELSE
        INSERT INTO log VALUES ('Error; occurred');
    END IF;
END$$
DELIMITER ;
SELECT 'done';"#;
        let statements = parse_all(sql);

        assert_eq!(statements.len(), 2);
        assert!(statements[0].contains("CREATE PROCEDURE"));
        assert!(statements[0].contains("'test;value'"));
        assert!(statements[0].contains("'O''Reilly'"));
        assert_eq!(statements[1], "SELECT 'done'");
    }

#[test]
fn scripts_with_a_split_character_are_refused() {
    assert!(onetcli::streaming_parser::script_splits_cleanly("SELECT $$a$ b$$; SELECT 1;"));
    assert!(!onetcli::streaming_parser::script_splits_cleanly("SELECT $$é$ b$$;"));
    assert!(onetcli::streaming_parser::script_splits_cleanly("SELECT 'é$';"));
}
