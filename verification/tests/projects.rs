use std::collections::HashMap;
use djanco::data::{CacheData, Database};
use djanco::ids::ProjectId;
use djanco::source::Source;

#[test]
fn projects_against_expected() {
    let expected: HashMap<u64, String> = vec![
        (0, "https://github.com/tosch/ruote-kit.git".to_string()),
        (1, "https://github.com/kennethkalmer/ruote-kit.git".to_string()),
        (2, "https://github.com/matplotlib/basemap.git".to_string()),
        (3, "https://github.com/jswhit/basemap.git".to_string()),
        (4, "https://github.com/rolandoam/cocos2d-x.git".to_string()),
        (5, "https://github.com/cocos2d/cocos2d-x.git".to_string()),
        (6, "https://github.com/pixonic/cocos2d-x.git".to_string()),
        (7, "https://github.com/nubic/ncs_navigator_core.git".to_string()),
        (8, "https://github.com/sgonyea/rake-compiler.git".to_string()),
        (9, "https://github.com/chapuni/llvm.git".to_string()),
        (10, "https://github.com/heroku/heroku-buildpack-scala.git".to_string()),
        (11, "https://github.com/rafacm/heroku-buildpack-scala.git".to_string()),
        (12, "https://github.com/fluttershy/locria.git".to_string()),
        (13, "https://github.com/edvorg/cpp-drash.git".to_string()),
        (14, "https://github.com/abarocio80/clide.git".to_string()),
        (15, "https://github.com/thorlax402/thor-cms.git".to_string()),
        (16, "https://github.com/offsite/taskcodes.git".to_string()),
        (17, "https://github.com/markpasc/gameshake.git".to_string()),
        (18, "https://github.com/samuelclay/newsblur.git".to_string()),
        (19, "https://github.com/chrisjaure/git-lava.git".to_string()),
        (20, "https://github.com/es-doc/esdoc-questionnaire.git".to_string()),
        (21, "https://github.com/adammark/markup.js.git".to_string()),
        (22, "https://github.com/leoamigood/1stdibs_v2.1.git".to_string()),
        (23, "https://github.com/pyrovski/large-scale-forward-regression-using-a-partitioned-linear-model.git".to_string()),
        (24, "https://github.com/podarsmarty/cobertura-plugin.git".to_string()),
        (25, "https://github.com/fbettag/scala-vs-erlang.git".to_string()),
        (26, "https://github.com/rake-compiler/rake-compiler.git".to_string()),
        (27, "https://github.com/opencv/opencv.git".to_string()),
        (28, "https://github.com/jkammerl/opencv.git".to_string()),
        (29, "https://github.com/gpjt/webgl-lessons.git".to_string()),
        (30, "https://github.com/kerolasa/lelux-utiliteetit.git".to_string()),
        (31, "https://github.com/snowblindfatal/glomes.git".to_string()),
        (32, "https://github.com/pockethub/pockethub.git".to_string()),
        (33, "https://github.com/mirocow/yii-easyapns.git".to_string()),
        (34, "https://github.com/angular/angular.js.git".to_string()),
        (35, "https://github.com/wallysalami/yii-easyapns.git".to_string()),
        (36, "https://github.com/macmade/opencv-ios.git".to_string()),
        (37, "https://github.com/powmedia/buildify.git".to_string()),
        (38, "https://github.com/liberty-concepts/redmine_git_hosting.git".to_string()),
        (39, "https://github.com/kubitron/redmine_git_hosting.git".to_string()),
        (40, "https://github.com/hpc/iptablesbuild.git".to_string()),
        (41, "https://github.com/chenniaoc/opencv-ios.git".to_string()),
        (42, "https://github.com/tijsverkoyen/dotfiles.git".to_string()),
        (43, "https://github.com/6a68/browserid.git".to_string()),
        (44, "https://github.com/samtubbax/dotfiles.git".to_string()),
        (45, "https://github.com/jman01/customizations.git".to_string()),
        (46, "https://github.com/alexgorbatchev/syntaxhighlighter.git".to_string()),
        (47, "https://github.com/fredwu/jquery-endless-scroll.git".to_string()),
        (48, "https://github.com/kanishkaganguly/zero-requiem.git".to_string()),
        (49, "https://github.com/bronsa/brochure.git".to_string()),
        (50, "https://github.com/yui/yui3.git".to_string()),
        (51, "https://github.com/jesperes/protobuf-cmake.git".to_string()),
        (52, "https://github.com/pculture/unisubs.git".to_string()),
        (53, "https://github.com/imtapps/django-request-signer.git".to_string()),
        (54, "https://github.com/nadafigment/protobuf-cmake.git".to_string()),
        (55, "https://github.com/libram/django-request-signer.git".to_string()),
        (56, "https://github.com/fangpenlin/loso.git".to_string()),
        (57, "https://github.com/lucaswei/loso.git".to_string()),
        (58, "https://github.com/apipkin/yui3.git".to_string()),
        (59, "https://github.com/doctag/doctag_java.git".to_string()),
        (60, "https://github.com/llvm-mirror/llvm.git".to_string()),
        (61, "https://github.com/gini/doctag_java.git".to_string()),
        (62, "https://github.com/joyent/libuv.git".to_string()),
        (63, "https://github.com/schatten/schatten.github.com.git".to_string()),
        (64, "https://github.com/gosquared/nvm-cookbook.git".to_string()),
        (65, "https://github.com/davewid/legacy-php-talk.git".to_string()),
        (66, "https://github.com/mshk/data-journalism-handbook-ja.git".to_string()),
        (67, "https://github.com/russellspitzer/sample_app.git".to_string()),
        (68, "https://github.com/willdurand/willdurand.github.io.git".to_string()),
        (69, "https://github.com/stof/willdurand.github.com.git".to_string()),
        (70, "https://github.com/rxgx/dotfiles.git".to_string()),
        (71, "https://github.com/ablu/manaserv.git".to_string()),
        (72, "https://github.com/garyrussell/spring-integration.git".to_string()),
        (73, "https://github.com/yomoyomo/data-journalism-handbook-ja.git".to_string()),
        (74, "https://github.com/mana/manaserv.git".to_string()),
        (75, "https://github.com/bjorn/manaserv.git".to_string()),
        (76, "https://github.com/fnando/i18n-js.git".to_string()),
        (77, "https://github.com/olegz/spring-integration.git".to_string()),
        (78, "https://github.com/chapuni/llvm-project.git".to_string()),
        (79, "https://github.com/neverabc/libuv.git".to_string()),
        (80, "https://github.com/blinkbox/cucumber-js.git".to_string()),
        (81, "https://github.com/elaird/supy.git".to_string()),
        (82, "https://github.com/janrain/jump.ios.git".to_string()),
        (83, "https://github.com/timblinkbox/cucumber-js.git".to_string()),
        (84, "https://github.com/angular/angular-seed.git".to_string()),
        (85, "https://github.com/mashiro/i18n-js.git".to_string()),
        (86, "https://github.com/jakewharton/viewpagerindicator.git".to_string()),
        (87, "https://github.com/evh27/angular-seed.git".to_string()),
        (88, "https://github.com/leon/play-salat.git".to_string()),
        (89, "https://github.com/bnoordhuis/libuv.git".to_string()),
        (90, "https://github.com/oftc/libuv.git".to_string()),
        (91, "https://github.com/shepheb/jotto.git".to_string()),
        (92, "https://github.com/virgo-agent-toolkit/rackspace-monitoring-agent.git".to_string()),
        (93, "https://github.com/incuna/django-extensible-profiles.git".to_string()),
        (94, "https://github.com/redaemn/angular-seed.git".to_string()),
        (95, "https://github.com/zorgleh/try_git.git".to_string()),
        (96, "https://github.com/madrobby/zepto.git".to_string()),
        (97, "https://github.com/ochameau/addon-sdk.git".to_string()),
        (98, "https://github.com/brandonwamboldt/utilphp.git".to_string()),
    ]
        .into_iter()
        .collect();

    let mut src = Source::new();
    let mut urls: Vec<(u64, String)> = expected.iter().map(|(i, u)| (*i, u.clone())).collect();
    urls.sort();
    src.project_urls = urls;
    let mut database = Database::from_store(src, "cache", CacheData::empty());

    for project in database.projects() {
        let expected_url = expected
            .get(&project.id().0)
            .expect("not expected to see this project")
            .to_owned();
        assert_eq!(expected_url, *project.url());
    }

    let projects: HashMap<u64, String> =
        database.projects().into_iter().map(|p| (p.id().0, p.url().clone())).collect();
    expected.iter().for_each(|(id, url)| {
        let url2 = projects.get(id).expect("expected to see this project");
        assert_eq!(url, url2);
    });
}
