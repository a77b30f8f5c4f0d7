//! Laws of the interface-string table: which text each key has.

use vstd::prelude::*;
use crate::i18n::interface_strings;

verus! {

/// Law: the shipped table gives each interface key its Russian text, and
/// holds no other keys.
pub proof fn lemma_interface_texts()
    ensures
        interface_strings().contains_key("all_articles"@) && interface_strings()["all_articles"@] == "Все статьи"@,
        interface_strings().contains_key("app_title"@) && interface_strings()["app_title"@] == "База знаний"@,
        interface_strings().contains_key("author"@) && interface_strings()["author"@] == "Автор"@,
        interface_strings().contains_key("back_to_list"@) && interface_strings()["back_to_list"@] == "Вернуться к списку"@,
        interface_strings().contains_key("by"@) && interface_strings()["by"@] == "от"@,
        interface_strings().contains_key("cancel"@) && interface_strings()["cancel"@] == "Отмена"@,
        interface_strings().contains_key("content"@) && interface_strings()["content"@] == "Содержание"@,
        interface_strings().contains_key("created"@) && interface_strings()["created"@] == "Создано"@,
        interface_strings().contains_key("delete"@) && interface_strings()["delete"@] == "Удалить"@,
        interface_strings().contains_key("edit"@) && interface_strings()["edit"@] == "Редактировать"@,
        interface_strings().contains_key("loading"@) && interface_strings()["loading"@] == "Загрузка..."@,
        interface_strings().contains_key("new_article"@) && interface_strings()["new_article"@] == "Новая статья"@,
        interface_strings().contains_key("no_pages"@) && interface_strings()["no_pages"@] == "Статей пока нет. Создайте первую!"@,
        interface_strings().contains_key("not_found"@) && interface_strings()["not_found"@] == "Страница не найдена"@,
        interface_strings().contains_key("of"@) && interface_strings()["of"@] == "из"@,
        interface_strings().contains_key("pin"@) && interface_strings()["pin"@] == "Закрепить"@,
        interface_strings().contains_key("pinned"@) && interface_strings()["pinned"@] == "Закреплено"@,
        interface_strings().contains_key("save"@) && interface_strings()["save"@] == "Сохранить"@,
        interface_strings().contains_key("search_placeholder"@) && interface_strings()["search_placeholder"@] == "Поиск по заголовкам, содержанию, тегам..."@,
        interface_strings().contains_key("search_results"@) && interface_strings()["search_results"@] == "Найдено"@,
        interface_strings().contains_key("tags"@) && interface_strings()["tags"@] == "Теги (через запятую)"@,
        interface_strings().contains_key("theme"@) && interface_strings()["theme"@] == "Тема"@,
        interface_strings().contains_key("title"@) && interface_strings()["title"@] == "Заголовок"@,
        interface_strings().contains_key("unpin"@) && interface_strings()["unpin"@] == "Открепить"@,
        interface_strings().contains_key("updated"@) && interface_strings()["updated"@] == "Обновлено"@,
        interface_strings().dom() == set!["all_articles"@, "app_title"@, "author"@, "back_to_list"@, "by"@, "cancel"@, "content"@, "created"@, "delete"@, "edit"@, "loading"@, "new_article"@, "no_pages"@, "not_found"@, "of"@, "pin"@, "pinned"@, "save"@, "search_placeholder"@, "search_results"@, "tags"@, "theme"@, "title"@, "unpin"@, "updated"@],
{
    broadcast use vstd::string::group_string_axioms;

    reveal_strlit("all_articles");
    reveal_strlit("app_title");
    reveal_strlit("author");
    reveal_strlit("back_to_list");
    reveal_strlit("by");
    reveal_strlit("cancel");
    reveal_strlit("content");
    reveal_strlit("created");
    reveal_strlit("delete");
    reveal_strlit("edit");
    reveal_strlit("loading");
    reveal_strlit("new_article");
    reveal_strlit("no_pages");
    reveal_strlit("not_found");
    reveal_strlit("of");
    reveal_strlit("pin");
    reveal_strlit("pinned");
    reveal_strlit("save");
    reveal_strlit("search_placeholder");
    reveal_strlit("search_results");
    reveal_strlit("tags");
    reveal_strlit("theme");
    reveal_strlit("title");
    reveal_strlit("unpin");
    reveal_strlit("updated");
    // the keys differ pairwise: in length, or in their first or second character
    assert("all_articles"@.len() == 12 && "all_articles"@[0] == 'a' && "all_articles"@[1] == 'l');
    assert("app_title"@.len() == 9 && "app_title"@[0] == 'a' && "app_title"@[1] == 'p');
    assert("author"@.len() == 6 && "author"@[0] == 'a' && "author"@[1] == 'u');
    assert("back_to_list"@.len() == 12 && "back_to_list"@[0] == 'b' && "back_to_list"@[1] == 'a');
    assert("by"@.len() == 2 && "by"@[0] == 'b' && "by"@[1] == 'y');
    assert("cancel"@.len() == 6 && "cancel"@[0] == 'c' && "cancel"@[1] == 'a');
    assert("content"@.len() == 7 && "content"@[0] == 'c' && "content"@[1] == 'o');
    assert("created"@.len() == 7 && "created"@[0] == 'c' && "created"@[1] == 'r');
    assert("delete"@.len() == 6 && "delete"@[0] == 'd' && "delete"@[1] == 'e');
    assert("edit"@.len() == 4 && "edit"@[0] == 'e' && "edit"@[1] == 'd');
    assert("loading"@.len() == 7 && "loading"@[0] == 'l' && "loading"@[1] == 'o');
    assert("new_article"@.len() == 11 && "new_article"@[0] == 'n' && "new_article"@[1] == 'e');
    assert("no_pages"@.len() == 8 && "no_pages"@[0] == 'n' && "no_pages"@[1] == 'o');
    assert("not_found"@.len() == 9 && "not_found"@[0] == 'n' && "not_found"@[1] == 'o');
    assert("of"@.len() == 2 && "of"@[0] == 'o' && "of"@[1] == 'f');
    assert("pin"@.len() == 3 && "pin"@[0] == 'p' && "pin"@[1] == 'i');
    assert("pinned"@.len() == 6 && "pinned"@[0] == 'p' && "pinned"@[1] == 'i');
    assert("save"@.len() == 4 && "save"@[0] == 's' && "save"@[1] == 'a');
    assert("search_placeholder"@.len() == 18 && "search_placeholder"@[0] == 's' && "search_placeholder"@[1] == 'e');
    assert("search_results"@.len() == 14 && "search_results"@[0] == 's' && "search_results"@[1] == 'e');
    assert("tags"@.len() == 4 && "tags"@[0] == 't' && "tags"@[1] == 'a');
    assert("theme"@.len() == 5 && "theme"@[0] == 't' && "theme"@[1] == 'h');
    assert("title"@.len() == 5 && "title"@[0] == 't' && "title"@[1] == 'i');
    assert("unpin"@.len() == 5 && "unpin"@[0] == 'u' && "unpin"@[1] == 'n');
    assert("updated"@.len() == 7 && "updated"@[0] == 'u' && "updated"@[1] == 'p');
    assert(interface_strings().dom() =~= set!["all_articles"@, "app_title"@, "author"@, "back_to_list"@, "by"@, "cancel"@, "content"@, "created"@, "delete"@, "edit"@, "loading"@, "new_article"@, "no_pages"@, "not_found"@, "of"@, "pin"@, "pinned"@, "save"@, "search_placeholder"@, "search_results"@, "tags"@, "theme"@, "title"@, "unpin"@, "updated"@]);
}

} // verus!
